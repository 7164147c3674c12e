use vstd::prelude::*;

verus! {

/// The claims a stateless identity token embeds: the subject account
/// identifier, the issue time and the expiry time, both in unix seconds.
/// The token is valid strictly before `exp`, regardless of any account
/// state change after issuance.
#[derive(Clone, Copy, Debug, PartialEq, Eq, Structural)]
pub struct TokenClaims {
    pub sub: u128,
    pub iat: u64,
    pub exp: u64,
}

/// A stateless identity proof: claims plus a check value keyed by the
/// server-held secret. A verifier recomputes the check value from the
/// claims and the secret it holds and accepts only on that mechanical
/// equality — which is all the contracts state. The keyed mixer behind it
/// is not a cryptographic MAC; a deployment that needs cryptographic
/// tamper resistance supplies a real MAC behind a trusted wrapper in its
/// place.
#[derive(Clone, Copy, Debug, PartialEq, Eq, Structural)]
pub struct Token {
    pub claims: TokenClaims,
    pub tag: u64,
}

/// One round of the keyed mixer behind the token's check value.
pub open spec fn spec_mix(h: u64, x: u64) -> u64 {
    let a = (h ^ x).wrapping_mul(0xff51afd7ed558ccd);
    let b = (a ^ (a >> 33)).wrapping_mul(0xc4ceb9fe1a85ec53);
    b ^ (b >> 33)
}

fn mix(h: u64, x: u64) -> (r: u64)
    ensures
        r == spec_mix(h, x),
{
    let a = (h ^ x).wrapping_mul(0xff51afd7ed558ccd);
    let b = (a ^ (a >> 33)).wrapping_mul(0xc4ceb9fe1a85ec53);
    b ^ (b >> 33)
}

/// The check value of a token's claims under a secret: the claim words
/// folded through the keyed mixer, starting from the secret.
pub open spec fn spec_token_tag(secret: u64, claims: TokenClaims) -> u64 {
    let hi = ((claims.sub >> 64) & 0xffff_ffff_ffff_ffff) as u64;
    let lo = (claims.sub & 0xffff_ffff_ffff_ffff) as u64;
    spec_mix(spec_mix(spec_mix(spec_mix(secret, hi), lo), claims.iat), claims.exp)
}

/// Computes the check value of `claims` under `secret`.
pub fn token_tag(secret: u64, claims: &TokenClaims) -> (r: u64)
    ensures
        r == spec_token_tag(secret, *claims),
{
    let hi = ((claims.sub >> 64) & 0xffff_ffff_ffff_ffff) as u64;
    let lo = (claims.sub & 0xffff_ffff_ffff_ffff) as u64;
    mix(mix(mix(mix(secret, hi), lo), claims.iat), claims.exp)
}

/// The token issued to `sub` at time `now` with the given lifetime, under
/// `secret`.
pub open spec fn spec_issue_token(secret: u64, sub: u128, now: u64, lifetime_secs: u64) -> Token {
    let claims = TokenClaims { sub, iat: now, exp: (now + lifetime_secs) as u64 };
    Token { claims, tag: spec_token_tag(secret, claims) }
}

/// A token passes verification under `secret` at time `now` exactly when
/// its check value matches its claims and the expiry has not been reached.
pub open spec fn spec_token_valid(t: Token, secret: u64, now: u64) -> bool {
    t.tag == spec_token_tag(secret, t.claims) && now < t.claims.exp
}

/// Issues a token for account `sub`: issued at `now`, expiring at
/// `now + lifetime_secs`, check value keyed by `secret`.
pub fn issue_token(secret: u64, sub: u128, now: u64, lifetime_secs: u64) -> (t: Token)
    requires
        now + lifetime_secs <= u64::MAX,
    ensures
        t == spec_issue_token(secret, sub, now, lifetime_secs),
        t.claims.sub == sub,
        t.claims.iat == now,
        t.claims.exp == now + lifetime_secs,
{
    let claims = TokenClaims { sub, iat: now, exp: now + lifetime_secs };
    let tag = token_tag(secret, &claims);
    Token { claims, tag }
}

/// Verifies a token under `secret` at time `now`: returns the subject
/// account identifier exactly when the check value matches and the token
/// has not expired; a tampered, foreign-keyed or expired token yields
/// `None`.
pub fn verify_token(t: &Token, secret: u64, now: u64) -> (r: Option<u128>)
    ensures
        r is Some <==> spec_token_valid(*t, secret, now),
        r is Some ==> r->0 == t.claims.sub,
{
    let expected = token_tag(secret, &t.claims);
    if t.tag == expected && now < t.claims.exp {
        Some(t.claims.sub)
    } else {
        None
    }
}

/// Whether a byte is a lowercase hex digit.
pub open spec fn is_hex(b: u8) -> bool {
    (48 <= b && b <= 57) || (97 <= b && b <= 102)
}

/// The lowercase hex digit for a nibble.
pub open spec fn hex_byte(n: u8) -> u8
    recommends
        n < 16,
{
    if n < 10 {
        (n + 48) as u8
    } else {
        (n + 87) as u8
    }
}

/// The nibble a hex digit stands for; a non-digit counts as zero.
pub open spec fn hex_val(b: u8) -> u8 {
    if 48 <= b && b <= 57 {
        (b - 48) as u8
    } else if 97 <= b && b <= 102 {
        (b - 87) as u8
    } else {
        0
    }
}

/// `width` hex digits of `x`, least significant nibble first.
pub open spec fn spec_hex_le(x: nat, width: nat) -> Seq<u8>
    decreases width,
{
    if width == 0 {
        seq![]
    } else {
        seq![hex_byte((x % 16) as u8)] + spec_hex_le(x / 16, (width - 1) as nat)
    }
}

/// The value of a least-significant-first hex digit string.
pub open spec fn spec_unhex_le(s: Seq<u8>) -> nat
    decreases s.len(),
{
    if s.len() == 0 {
        0nat
    } else {
        (hex_val(s[0]) + 16 * spec_unhex_le(s.drop_first())) as nat
    }
}

/// Sixteen to the power `n`.
pub open spec fn pow16(n: nat) -> nat
    decreases n,
{
    if n == 0 {
        1nat
    } else {
        16 * pow16((n - 1) as nat)
    }
}

/// A hex string of length `w` holds a value below `pow16(w)`.
pub proof fn lemma_unhex_bound(s: Seq<u8>)
    ensures
        spec_unhex_le(s) < pow16(s.len()),
    decreases s.len(),
{
    if s.len() > 0 {
        lemma_unhex_bound(s.drop_first());
    }
}

/// Every digit of a hex rendering is a hex digit, and the rendering has
/// length `width`.
pub proof fn lemma_hex_le_wf(x: nat, width: nat)
    ensures
        spec_hex_le(x, width).len() == width,
        forall|i: int| 0 <= i < width ==> is_hex(#[trigger] spec_hex_le(x, width)[i]),
    decreases width,
{
    if width > 0 {
        lemma_hex_le_wf(x / 16, (width - 1) as nat);
        assert forall|i: int| 0 <= i < width implies is_hex(#[trigger] spec_hex_le(x, width)[i]) by {
            if i > 0 {
                assert(spec_hex_le(x, width)[i] == spec_hex_le(x / 16, (width - 1) as nat)[i - 1]);
            }
        }
    }
}

/// Reading back a hex rendering gives the value it was made from, for any
/// value the width can hold.
pub proof fn lemma_unhex_hex(x: nat, width: nat)
    requires
        x < pow16(width),
    ensures
        spec_unhex_le(spec_hex_le(x, width)) == x,
    decreases width,
{
    if width == 0 {
    } else {
        let d = (x % 16) as u8;
        let rest = spec_hex_le(x / 16, (width - 1) as nat);
        assert(x / 16 < pow16((width - 1) as nat)) by {
            assert(x < 16 * pow16((width - 1) as nat));
        };
        lemma_unhex_hex(x / 16, (width - 1) as nat);
        assert((seq![hex_byte(d)] + rest).drop_first() =~= rest);
        assert(hex_val(hex_byte(d)) == x % 16);
    }
}

/// Rendering the value of an all-hex string of length `w` gives the string
/// back.
pub proof fn lemma_hex_unhex(s: Seq<u8>, width: nat)
    requires
        s.len() == width,
        forall|i: int| 0 <= i < s.len() ==> is_hex(#[trigger] s[i]),
    ensures
        spec_hex_le(spec_unhex_le(s), width) == s,
    decreases width,
{
    if width > 0 {
        let v = spec_unhex_le(s);
        let a = hex_val(s[0]) as nat;
        let r = spec_unhex_le(s.drop_first());
        assert(v == a + 16 * r);
        assert(v % 16 == a && v / 16 == r) by {
            assert(a < 16);
        };
        assert(hex_byte((v % 16) as u8) == s[0]);
        lemma_hex_unhex(s.drop_first(), (width - 1) as nat);
        assert(spec_hex_le(v, width) =~= s);
    }
}

/// The wire form of a token: its four words rendered as fixed-width
/// lowercase hex, least significant nibble first — subject (32 digits),
/// issue time (16), expiry (16), check value (16), 80 bytes in all.
pub open spec fn spec_encode_token(t: Token) -> Seq<u8> {
    spec_hex_le(t.claims.sub as nat, 32) + spec_hex_le(t.claims.iat as nat, 16) + spec_hex_le(
        t.claims.exp as nat,
        16,
    ) + spec_hex_le(t.tag as nat, 16)
}

/// Appends the `width` least-significant-first hex digits of `x`.
fn push_hex_le(x: u128, width: usize, s: &mut Vec<u8>)
    ensures
        final(s)@ == old(s)@ + spec_hex_le(x as nat, width as nat),
{
    let mut v: u128 = x;
    let mut i: usize = 0;
    while i < width
        invariant
            i <= width,
            old(s)@ + spec_hex_le(x as nat, width as nat) == s@ + spec_hex_le(
                v as nat,
                (width - i) as nat,
            ),
        decreases width - i,
    {
        let d: u8 = (v % 16) as u8;
        let b: u8 = if d < 10 {
            d + 48
        } else {
            d + 87
        };
        proof {
            assert(spec_hex_le(v as nat, (width - i) as nat) =~= seq![hex_byte(d)] + spec_hex_le(
                (v / 16) as nat,
                (width - i - 1) as nat,
            ));
            assert(s@ + spec_hex_le(v as nat, (width - i) as nat) =~= (s@ + seq![b]) + spec_hex_le(
                (v / 16) as nat,
                (width - i - 1) as nat,
            ));
        }
        s.push(b);
        v = v / 16;
        i = i + 1;
    }
    proof {
        assert(s@ + spec_hex_le(v as nat, 0) =~= s@);
    }
}

/// Renders a token in its wire form.
pub fn encode_token(t: &Token) -> (r: Vec<u8>)
    ensures
        r@ == spec_encode_token(*t),
{
    let mut s: Vec<u8> = Vec::new();
    push_hex_le(t.claims.sub, 32, &mut s);
    push_hex_le(t.claims.iat as u128, 16, &mut s);
    push_hex_le(t.claims.exp as u128, 16, &mut s);
    push_hex_le(t.tag as u128, 16, &mut s);
    proof {
        assert(s@ =~= spec_encode_token(*t));
    }
    s
}

/// Reads the hex digits of `s` between `from` and `to` as a value, least
/// significant first; `None` when a byte there is not a lowercase hex
/// digit.
fn parse_hex_le(s: &[u8], from: usize, to: usize) -> (r: Option<u128>)
    requires
        from <= to && to <= s@.len(),
        to - from <= 32,
    ensures
        r is Some <==> (forall|i: int| from <= i < to ==> is_hex(#[trigger] s@[i])),
        r is Some ==> r->0 as nat == spec_unhex_le(s@.subrange(from as int, to as int)),
    decreases to - from,
{
    if from == to {
        proof {
            assert(s@.subrange(from as int, to as int) =~= Seq::<u8>::empty());
        }
        Some(0)
    } else {
        let b = s[from];
        let d: u8 = if 48 <= b && b <= 57 {
            b - 48
        } else if 97 <= b && b <= 102 {
            b - 87
        } else {
            return None;
        };
        match parse_hex_le(s, from + 1, to) {
            Some(rest) => {
                proof {
                    let seg = s@.subrange(from as int, to as int);
                    assert(seg.drop_first() =~= s@.subrange(from + 1, to as int));
                    lemma_unhex_bound(s@.subrange(from + 1, to as int));
                    assert(pow16(31) == 0x10000000000000000000000000000000) by {
                        reveal_with_fuel(pow16, 33);
                    };
                    assert(spec_unhex_le(s@.subrange(from + 1, to as int)) < pow16(31)) by {
                        lemma_pow16_le((to - from - 1) as nat, 31);
                    };
                }
                Some(d as u128 + 16 * rest)
            },
            None => None,
        }
    }
}

/// `pow16` is monotone in its exponent.
proof fn lemma_pow16_le(a: nat, b: nat)
    requires
        a <= b,
    ensures
        pow16(a) <= pow16(b),
    decreases b,
{
    if a < b && b > 0 {
        lemma_pow16_le(a, (b - 1) as nat);
    }
}

/// Reads a token back from its wire form. Exactly the 80-byte strings that
/// `encode_token` produces are accepted, and decoding is its inverse: a
/// decoded token re-encodes to the input, and the encoding of any token
/// decodes to that token.
pub fn decode_token(s: &[u8]) -> (r: Option<Token>)
    ensures
        r is Some ==> spec_encode_token(r->0) == s@,
        forall|t: Token| s@ == spec_encode_token(t) ==> r == Some(t),
{
    if s.len() != 80 {
        proof {
            assert forall|t: Token| s@ != spec_encode_token(t) by {
                lemma_hex_le_wf(t.claims.sub as nat, 32);
                lemma_hex_le_wf(t.claims.iat as nat, 16);
                lemma_hex_le_wf(t.claims.exp as nat, 16);
                lemma_hex_le_wf(t.tag as nat, 16);
            }
        }
        return None;
    }
    let sub = match parse_hex_le(s, 0, 32) {
        Some(v) => v,
        None => {
            proof {
                lemma_no_token_on_bad_digit(s@);
            }
            return None;
        },
    };
    let iat = match parse_hex_le(s, 32, 48) {
        Some(v) => v,
        None => {
            proof {
                lemma_no_token_on_bad_digit(s@);
            }
            return None;
        },
    };
    let exp = match parse_hex_le(s, 48, 64) {
        Some(v) => v,
        None => {
            proof {
                lemma_no_token_on_bad_digit(s@);
            }
            return None;
        },
    };
    let tag = match parse_hex_le(s, 64, 80) {
        Some(v) => v,
        None => {
            proof {
                lemma_no_token_on_bad_digit(s@);
            }
            return None;
        },
    };
    proof {
        lemma_unhex_bound(s@.subrange(32, 48));
        lemma_unhex_bound(s@.subrange(48, 64));
        lemma_unhex_bound(s@.subrange(64, 80));
        assert(pow16(16) == 0x10000000000000000) by {
            reveal_with_fuel(pow16, 17);
        };
    }
    let t = Token {
        claims: TokenClaims { sub, iat: iat as u64, exp: exp as u64 },
        tag: tag as u64,
    };
    proof {
        lemma_decode_exact(s@, t);
    }
    Some(t)
}

/// A string with a non-hex byte in a field position is no token encoding.
proof fn lemma_no_token_on_bad_digit(s: Seq<u8>)
    requires
        exists|i: int| 0 <= i < s.len() && !is_hex(#[trigger] s[i]),
    ensures
        forall|t: Token| s != spec_encode_token(t),
{
    assert forall|t: Token| s != spec_encode_token(t) by {
        lemma_encoding_all_hex(t);
    }
}

/// Every byte of a token encoding is a hex digit, and the encoding is 80
/// bytes long.
proof fn lemma_encoding_all_hex(t: Token)
    ensures
        spec_encode_token(t).len() == 80,
        forall|i: int| 0 <= i < 80 ==> is_hex(#[trigger] spec_encode_token(t)[i]),
{
    lemma_hex_le_wf(t.claims.sub as nat, 32);
    lemma_hex_le_wf(t.claims.iat as nat, 16);
    lemma_hex_le_wf(t.claims.exp as nat, 16);
    lemma_hex_le_wf(t.tag as nat, 16);
}

/// When the four fields of `t` are the values read from the four segments
/// of an all-hex 80-byte string, the string is exactly the encoding of
/// `t`, and of no other token.
proof fn lemma_decode_exact(s: Seq<u8>, t: Token)
    requires
        s.len() == 80,
        forall|i: int| 0 <= i < 80 ==> is_hex(#[trigger] s[i]),
        t.claims.sub as nat == spec_unhex_le(s.subrange(0, 32)),
        t.claims.iat as nat == spec_unhex_le(s.subrange(32, 48)),
        t.claims.exp as nat == spec_unhex_le(s.subrange(48, 64)),
        t.tag as nat == spec_unhex_le(s.subrange(64, 80)),
    ensures
        spec_encode_token(t) == s,
        forall|u: Token| s == spec_encode_token(u) ==> u == t,
{
    lemma_hex_unhex(s.subrange(0, 32), 32);
    lemma_hex_unhex(s.subrange(32, 48), 16);
    lemma_hex_unhex(s.subrange(48, 64), 16);
    lemma_hex_unhex(s.subrange(64, 80), 16);
    assert(spec_encode_token(t) =~= s);
    assert forall|u: Token| s == spec_encode_token(u) implies u == t by {
        lemma_encode_injective_fields(s, u);
    }
}

/// The encoding determines each field: reading the segments of
/// `spec_encode_token(u)` gives back `u`'s fields.
proof fn lemma_encode_injective_fields(s: Seq<u8>, u: Token)
    requires
        s == spec_encode_token(u),
    ensures
        spec_unhex_le(s.subrange(0, 32)) == u.claims.sub as nat,
        spec_unhex_le(s.subrange(32, 48)) == u.claims.iat as nat,
        spec_unhex_le(s.subrange(48, 64)) == u.claims.exp as nat,
        spec_unhex_le(s.subrange(64, 80)) == u.tag as nat,
{
    lemma_hex_le_wf(u.claims.sub as nat, 32);
    lemma_hex_le_wf(u.claims.iat as nat, 16);
    lemma_hex_le_wf(u.claims.exp as nat, 16);
    lemma_hex_le_wf(u.tag as nat, 16);
    assert(s.subrange(0, 32) =~= spec_hex_le(u.claims.sub as nat, 32));
    assert(s.subrange(32, 48) =~= spec_hex_le(u.claims.iat as nat, 16));
    assert(s.subrange(48, 64) =~= spec_hex_le(u.claims.exp as nat, 16));
    assert(s.subrange(64, 80) =~= spec_hex_le(u.tag as nat, 16));
    assert(pow16(32) == 0x100000000000000000000000000000000) by {
        reveal_with_fuel(pow16, 33);
    };
    assert(pow16(16) == 0x10000000000000000) by {
        reveal_with_fuel(pow16, 17);
    };
    lemma_unhex_hex(u.claims.sub as nat, 32);
    lemma_unhex_hex(u.claims.iat as nat, 16);
    lemma_unhex_hex(u.claims.exp as nat, 16);
    lemma_unhex_hex(u.tag as nat, 16);
}

/// A token issued with lifetime `l` fails verification one second after
/// its embedded expiry and passes one second before it (for any positive
/// lifetime), under the secret it was issued with.
pub proof fn lemma_token_lifetime(secret: u64, sub: u128, now: u64, l: u64)
    requires
        now + l + 1 <= u64::MAX,
    ensures
        !spec_token_valid(spec_issue_token(secret, sub, now, l), secret, (now + l + 1) as u64),
        l >= 1 ==> spec_token_valid(
            spec_issue_token(secret, sub, now, l),
            secret,
            (now + l - 1) as u64,
        ),
{
}

} // verus!
