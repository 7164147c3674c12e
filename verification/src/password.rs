use vstd::prelude::*;

verus! {

/// Whether the secret `secret` matches the encoded password hash `phc`:
/// the digest recomputed from the secret's bytes with the algorithm,
/// parameters and salt encoded in `phc` equals the digest stored in `phc`.
/// The comparison is a deterministic function of the two arguments alone;
/// its definition is the Argon2 algorithm and is not restated here.
pub uninterp spec fn argon2_matches(secret: Seq<char>, phc: Seq<char>) -> bool;

/// Relies on argon2's `PasswordHasher::hash_password`: it derives a
/// memory-hard hash of the secret's bytes under a freshly generated random
/// salt and returns it as a self-describing PHC string, which by
/// construction verifies against the same secret. Salt generation or
/// hashing failures come back as `None`. The salt is random, so nothing is
/// promised about the string itself beyond the round trip.
#[verifier::external_body]
pub fn hash_password(secret: &str) -> (r: Option<String>)
    ensures
        r is Some ==> argon2_matches(secret@, r->0@),
{
    match argon2::PasswordHasher::hash_password(&argon2::Argon2::default(), secret.as_bytes()) {
        Ok(h) => Some(h.to_string()),
        Err(_) => None,
    }
}

/// Relies on argon2's `PasswordVerifier::<str>::verify_password`: it
/// parses the PHC string, recomputes the digest with the embedded
/// parameters and salt, and compares in constant time. A malformed stored
/// hash makes the parse fail, which collapses to `false` — treated as
/// "credentials do not match", never as a distinguishable error.
#[verifier::external_body]
pub fn verify_password(secret: &str, phc: &str) -> (r: bool)
    ensures
        r == argon2_matches(secret@, phc@),
{
    argon2::PasswordVerifier::<str>::verify_password(
        &argon2::Argon2::default(),
        secret.as_bytes(),
        phc,
    ).is_ok()
}

/// A freshly produced hash verifies against the secret it was made from:
/// whenever hashing succeeds, verification of that hash with the same
/// secret returns `true`.
pub fn hash_then_verify(secret: &str) -> (r: Option<bool>)
    ensures
        r is Some ==> r->0 == true,
{
    match hash_password(secret) {
        Some(phc) => Some(verify_password(secret, phc.as_str())),
        None => None,
    }
}

} // verus!
