use vstd::prelude::*;

verus! {

/// One account's like/dislike vote on one post. At most one reaction
/// exists per (post, account) pair; re-reacting updates it in place.
#[derive(Clone, Copy, Debug, PartialEq, Eq, Structural)]
pub struct Reaction {
    pub id: u64,
    pub post_id: u128,
    pub user_id: u128,
    pub is_like: bool,
}

/// The derived aggregate for a post, recomputed from the reaction rows on
/// every read and returned together with the post identifier.
#[derive(Clone, Copy, Debug, PartialEq, Eq, Structural)]
pub struct ReactionCounts {
    pub post_id: u128,
    pub like_count: u64,
    pub dislike_count: u64,
}

/// Whether `r` is the reaction of account `user` on post `post`.
pub open spec fn rx_matches(r: Reaction, post: u128, user: u128) -> bool {
    r.post_id == post && r.user_id == user
}

/// The index of the first reaction of `user` on `post`, or -1 when there
/// is none. Under the ledger's invariant a match is unique, so "first" is
/// "the".
pub open spec fn spec_find_rx(s: Seq<Reaction>, post: u128, user: u128) -> int
    decreases s.len(),
{
    if s.len() == 0 {
        -1
    } else if rx_matches(s[0], post, user) {
        0
    } else {
        let r = spec_find_rx(s.drop_first(), post, user);
        if r < 0 {
            -1
        } else {
            r + 1
        }
    }
}

/// Whether `user` has a recorded reaction on `post`.
pub open spec fn spec_has_rx(s: Seq<Reaction>, post: u128, user: u128) -> bool {
    spec_find_rx(s, post, user) >= 0
}

/// How many rows are the reaction of `user` on `post` (0 or 1 under the
/// invariant).
pub open spec fn spec_pair_count(s: Seq<Reaction>, post: u128, user: u128) -> nat
    decreases s.len(),
{
    if s.len() == 0 {
        0nat
    } else {
        (spec_pair_count(s.drop_last(), post, user) + if rx_matches(s.last(), post, user) {
            1nat
        } else {
            0nat
        }) as nat
    }
}

/// The number of `like` reactions recorded for `post`.
pub open spec fn spec_like_count(s: Seq<Reaction>, post: u128) -> nat
    decreases s.len(),
{
    if s.len() == 0 {
        0nat
    } else {
        (spec_like_count(s.drop_last(), post) + if s.last().post_id == post && s.last().is_like {
            1nat
        } else {
            0nat
        }) as nat
    }
}

/// The number of `dislike` reactions recorded for `post`.
pub open spec fn spec_dislike_count(s: Seq<Reaction>, post: u128) -> nat
    decreases s.len(),
{
    if s.len() == 0 {
        0nat
    } else {
        (spec_dislike_count(s.drop_last(), post) + if s.last().post_id == post
            && !s.last().is_like {
            1nat
        } else {
            0nat
        }) as nat
    }
}

/// The rows after `user` reacts to `post` with `b`: the existing row
/// updated in place when one exists (its identifier kept), a fresh row
/// appended otherwise.
pub open spec fn spec_react_rows(
    s: Seq<Reaction>,
    post: u128,
    user: u128,
    b: bool,
    fresh: u64,
) -> Seq<Reaction> {
    let i = spec_find_rx(s, post, user);
    if i >= 0 {
        s.update(i, Reaction { id: s[i].id, post_id: post, user_id: user, is_like: b })
    } else {
        s.push(Reaction { id: fresh, post_id: post, user_id: user, is_like: b })
    }
}

/// No two rows are reactions of the same account on the same post.
pub open spec fn rows_unique_pairs(s: Seq<Reaction>) -> bool {
    forall|i: int, j: int|
        0 <= i < j < s.len() ==> !(rx_matches(
            #[trigger] s[i],
            s[j].post_id,
            (#[trigger] s[j]).user_id,
        ))
}

/// The recorded vote of `user` on `post` (meaningful when one exists).
pub open spec fn spec_rx_is_like(s: Seq<Reaction>, post: u128, user: u128) -> bool {
    s[spec_find_rx(s, post, user)].is_like
}

/// The reaction ledger: the table of reaction rows, with the row
/// identifier counter. The invariant — at most one reaction per
/// (post, account) pair, identifiers unique — is enforced here by
/// lookup-before-write; a multi-process deployment must back it with a
/// storage-level unique constraint on the pair, since the lookup and the
/// write are not atomic across processes.
pub struct ReactionLedger {
    pub rows: Vec<Reaction>,
    pub next_id: u64,
}

impl ReactionLedger {
    /// The ledger's invariant: every row identifier is below the counter,
    /// no two rows share an identifier, and no two rows share a
    /// (post, account) pair.
    pub open spec fn wf(&self) -> bool {
        &&& forall|i: int|
            0 <= i < self.rows@.len() ==> #[trigger] self.rows@[i].id < self.next_id
        &&& forall|i: int, j: int|
            0 <= i < j < self.rows@.len() ==> (#[trigger] self.rows@[i]).id != (
            #[trigger] self.rows@[j]).id
        &&& rows_unique_pairs(self.rows@)
    }

    /// An empty ledger.
    pub fn new() -> (r: ReactionLedger)
        ensures
            r.wf(),
            r.rows@ == Seq::<Reaction>::empty(),
            r.next_id == 0,
    {
        ReactionLedger { rows: Vec::new(), next_id: 0 }
    }

    /// The index of the reaction of `user` on `post`, if any.
    fn find_rx(&self, post: u128, user: u128) -> (r: Option<usize>)
        ensures
            r is Some ==> r->0 == spec_find_rx(self.rows@, post, user),
            r is None ==> spec_find_rx(self.rows@, post, user) == -1,
    {
        let n = self.rows.len();
        let mut i: usize = 0;
        while i < n
            invariant
                i <= n,
                n == self.rows@.len(),
                forall|j: int| 0 <= j < i ==> !rx_matches(#[trigger] self.rows@[j], post, user),
            decreases n - i,
        {
            let row = self.rows[i];
            if row.post_id == post && row.user_id == user {
                proof {
                    lemma_find_rx_at(self.rows@, post, user, i as int);
                }
                return Some(i);
            }
            i = i + 1;
        }
        proof {
            lemma_find_rx_none(self.rows@, post, user);
        }
        None
    }

    /// Recomputes the aggregate like and dislike totals for `post` by
    /// scanning all reaction rows; both are zero when the post has none.
    pub fn counts_for(&self, post: u128) -> (r: (u64, u64))
        requires
            self.rows@.len() <= u64::MAX,
        ensures
            r.0 == spec_like_count(self.rows@, post),
            r.1 == spec_dislike_count(self.rows@, post),
    {
        let n = self.rows.len();
        let mut likes: u64 = 0;
        let mut dislikes: u64 = 0;
        let mut i: usize = 0;
        proof {
            lemma_counts_bounded(self.rows@.take(0), post);
        }
        while i < n
            invariant
                i <= n,
                n == self.rows@.len(),
                n <= u64::MAX,
                likes == spec_like_count(self.rows@.take(i as int), post),
                dislikes == spec_dislike_count(self.rows@.take(i as int), post),
                likes + dislikes <= i,
            decreases n - i,
        {
            let row = self.rows[i];
            proof {
                assert(self.rows@.take(i + 1).drop_last() =~= self.rows@.take(i as int));
                assert(self.rows@.take(i + 1).last() == self.rows@[i as int]);
            }
            if row.post_id == post {
                if row.is_like {
                    likes = likes + 1;
                } else {
                    dislikes = dislikes + 1;
                }
            }
            i = i + 1;
        }
        proof {
            assert(self.rows@.take(n as int) =~= self.rows@);
        }
        (likes, dislikes)
    }

    /// Records the reaction of account `user_id` on `post_id`: the
    /// existing row for the pair is updated in place when there is one, a
    /// fresh row is inserted otherwise, and the aggregate totals for the
    /// post are recomputed from the resulting rows and returned with the
    /// post identifier.
    pub fn react(&mut self, user_id: u128, post_id: u128, is_like: bool) -> (r: ReactionCounts)
        requires
            old(self).wf(),
            old(self).next_id < u64::MAX,
            old(self).rows@.len() < u64::MAX,
        ensures
            final(self).wf(),
            final(self).rows@ == spec_react_rows(
                old(self).rows@,
                post_id,
                user_id,
                is_like,
                old(self).next_id,
            ),
            final(self).next_id == old(self).next_id + (if spec_has_rx(
                old(self).rows@,
                post_id,
                user_id,
            ) {
                0int
            } else {
                1int
            }),
            r.post_id == post_id,
            r.like_count == spec_like_count(final(self).rows@, post_id),
            r.dislike_count == spec_dislike_count(final(self).rows@, post_id),
    {
        proof {
            lemma_find_rx_props(self.rows@, post_id, user_id);
        }
        match self.find_rx(post_id, user_id) {
            Some(i) => {
                let id = self.rows[i].id;
                let updated = Reaction { id, post_id, user_id, is_like };
                self.rows[i] = updated;
                proof {
                    lemma_wf_after_update(*old(self), *self, post_id, user_id, i as int);
                }
            },
            None => {
                let fresh = self.next_id;
                self.rows.push(Reaction { id: fresh, post_id, user_id, is_like });
                self.next_id = fresh + 1;
                proof {
                    lemma_wf_after_push(*old(self), *self, post_id, user_id, is_like);
                }
            },
        }
        let (like_count, dislike_count) = self.counts_for(post_id);
        ReactionCounts { post_id, like_count, dislike_count }
    }
}

/// The counts of a prefix are bounded by its length.
proof fn lemma_counts_bounded(s: Seq<Reaction>, post: u128)
    ensures
        spec_like_count(s, post) + spec_dislike_count(s, post) <= s.len(),
    decreases s.len(),
{
    if s.len() > 0 {
        lemma_counts_bounded(s.drop_last(), post);
    }
}

/// When `s[i]` matches and nothing before it does, the find index is `i`.
proof fn lemma_find_rx_at(s: Seq<Reaction>, post: u128, user: u128, i: int)
    requires
        0 <= i < s.len(),
        rx_matches(s[i], post, user),
        forall|j: int| 0 <= j < i ==> !rx_matches(#[trigger] s[j], post, user),
    ensures
        spec_find_rx(s, post, user) == i,
    decreases s.len(),
{
    if i > 0 {
        lemma_find_rx_at(s.drop_first(), post, user, i - 1);
    }
}

/// When nothing matches, the find index is -1.
proof fn lemma_find_rx_none(s: Seq<Reaction>, post: u128, user: u128)
    requires
        forall|j: int| 0 <= j < s.len() ==> !rx_matches(#[trigger] s[j], post, user),
    ensures
        spec_find_rx(s, post, user) == -1,
    decreases s.len(),
{
    if s.len() > 0 {
        lemma_find_rx_none(s.drop_first(), post, user);
    }
}

/// What a non-negative find index means: it lies in range, the row there
/// matches, and no earlier row does.
pub proof fn lemma_find_rx_props(s: Seq<Reaction>, post: u128, user: u128)
    ensures
        spec_find_rx(s, post, user) == -1 || 0 <= spec_find_rx(s, post, user) < s.len(),
        spec_find_rx(s, post, user) >= 0 ==> rx_matches(s[spec_find_rx(s, post, user)], post, user),
        forall|j: int|
            0 <= j < spec_find_rx(s, post, user) ==> !rx_matches(#[trigger] s[j], post, user),
        spec_find_rx(s, post, user) == -1 ==> forall|j: int|
            0 <= j < s.len() ==> !rx_matches(#[trigger] s[j], post, user),
    decreases s.len(),
{
    if s.len() > 0 {
        lemma_find_rx_props(s.drop_first(), post, user);
        if !rx_matches(s[0], post, user) {
            let r = spec_find_rx(s.drop_first(), post, user);
            if r >= 0 {
                assert(s[r + 1] == s.drop_first()[r]);
            }
            assert forall|j: int| 1 <= j < s.len() implies s.drop_first()[j - 1] == #[trigger] s[j] by {}
        }
    }
}

/// Updating the matched row with the same pair keeps the invariant.
proof fn lemma_wf_after_update(
    pre: ReactionLedger,
    post_state: ReactionLedger,
    post: u128,
    user: u128,
    i: int,
)
    requires
        pre.wf(),
        0 <= i < pre.rows@.len(),
        rx_matches(pre.rows@[i], post, user),
        post_state.rows@ == pre.rows@.update(
            i,
            Reaction {
                id: pre.rows@[i].id,
                post_id: post,
                user_id: user,
                is_like: post_state.rows@[i].is_like,
            },
        ),
        post_state.next_id == pre.next_id,
    ensures
        post_state.wf(),
{
}

/// Appending a row with a fresh pair and the counter as identifier keeps
/// the invariant.
proof fn lemma_wf_after_push(
    pre: ReactionLedger,
    post_state: ReactionLedger,
    post: u128,
    user: u128,
    b: bool,
)
    requires
        pre.wf(),
        pre.next_id < u64::MAX,
        spec_find_rx(pre.rows@, post, user) == -1,
        post_state.rows@ == pre.rows@.push(
            Reaction { id: pre.next_id, post_id: post, user_id: user, is_like: b },
        ),
        post_state.next_id == pre.next_id + 1,
    ensures
        post_state.wf(),
{
    lemma_find_rx_props(pre.rows@, post, user);
    assert forall|x: int, j: int|
        0 <= x < j < post_state.rows@.len() implies !(rx_matches(
        #[trigger] post_state.rows@[x],
        post_state.rows@[j].post_id,
        (#[trigger] post_state.rows@[j]).user_id,
    )) by {
        if j == pre.rows@.len() as int {
            assert(post_state.rows@[x] == pre.rows@[x]);
        }
    }
}

/// What one row adds to a post's like total.
pub open spec fn like_contrib(r: Reaction, post: u128) -> nat {
    if r.post_id == post && r.is_like {
        1nat
    } else {
        0nat
    }
}

/// What one row adds to a post's dislike total.
pub open spec fn dislike_contrib(r: Reaction, post: u128) -> nat {
    if r.post_id == post && !r.is_like {
        1nat
    } else {
        0nat
    }
}

/// Appending a row adds its contribution to each total.
proof fn lemma_counts_push(s: Seq<Reaction>, r: Reaction, post: u128)
    ensures
        spec_like_count(s.push(r), post) == spec_like_count(s, post) + like_contrib(r, post),
        spec_dislike_count(s.push(r), post) == spec_dislike_count(s, post) + dislike_contrib(
            r,
            post,
        ),
{
    assert(s.push(r).drop_last() =~= s);
}

/// Replacing the row at `i` swaps its contribution for the new row's in
/// each total.
proof fn lemma_counts_update(s: Seq<Reaction>, i: int, r: Reaction, post: u128)
    requires
        0 <= i < s.len(),
    ensures
        spec_like_count(s.update(i, r), post) == spec_like_count(s, post) - like_contrib(
            s[i],
            post,
        ) + like_contrib(r, post),
        spec_dislike_count(s.update(i, r), post) == spec_dislike_count(s, post) - dislike_contrib(
            s[i],
            post,
        ) + dislike_contrib(r, post),
    decreases s.len(),
{
    if i == s.len() - 1 {
        assert(s.update(i, r).drop_last() =~= s.drop_last());
        assert(s.update(i, r).last() == r);
    } else {
        lemma_counts_update(s.drop_last(), i, r, post);
        assert(s.update(i, r).drop_last() =~= s.drop_last().update(i, r));
        assert(s.update(i, r).last() == s.last());
    }
}

/// A ledger with no reaction of `user` on `post` counts zero rows for the
/// pair.
proof fn lemma_pair_count_zero(s: Seq<Reaction>, post: u128, user: u128)
    requires
        forall|j: int| 0 <= j < s.len() ==> !rx_matches(#[trigger] s[j], post, user),
    ensures
        spec_pair_count(s, post, user) == 0,
    decreases s.len(),
{
    if s.len() > 0 {
        lemma_pair_count_zero(s.drop_last(), post, user);
    }
}

/// Under pair uniqueness, a pair that is present is present in exactly one
/// row.
pub proof fn lemma_pair_count_one(s: Seq<Reaction>, post: u128, user: u128)
    requires
        rows_unique_pairs(s),
        spec_has_rx(s, post, user),
    ensures
        spec_pair_count(s, post, user) == 1,
    decreases s.len(),
{
    lemma_find_rx_props(s, post, user);
    let i = spec_find_rx(s, post, user);
    if i == s.len() - 1 {
        assert forall|j: int| 0 <= j < s.drop_last().len() implies !rx_matches(
            #[trigger] s.drop_last()[j],
            post,
            user,
        ) by {
            assert(s.drop_last()[j] == s[j]);
        }
        lemma_pair_count_zero(s.drop_last(), post, user);
    } else {
        assert(rx_matches(s.drop_last()[i], post, user));
        assert(spec_has_rx(s.drop_last(), post, user)) by {
            lemma_find_rx_props(s.drop_last(), post, user);
            if spec_find_rx(s.drop_last(), post, user) == -1 {
                assert(!rx_matches(s.drop_last()[i], post, user));
            }
        }
        lemma_pair_count_one(s.drop_last(), post, user);
        assert(!rx_matches(s.last(), post, user));
    }
}

/// Pair uniqueness is kept by a react step.
pub proof fn lemma_unique_after_react(s: Seq<Reaction>, post: u128, user: u128, b: bool, f: u64)
    requires
        rows_unique_pairs(s),
    ensures
        rows_unique_pairs(spec_react_rows(s, post, user, b, f)),
{
    lemma_find_rx_props(s, post, user);
    let s2 = spec_react_rows(s, post, user, b, f);
    let i = spec_find_rx(s, post, user);
    if i >= 0 {
        assert forall|x: int, j: int| 0 <= x < j < s2.len() implies !(rx_matches(
            #[trigger] s2[x],
            s2[j].post_id,
            (#[trigger] s2[j]).user_id,
        )) by {
            assert(rx_matches(s[i], post, user));
        }
    } else {
        assert forall|x: int, j: int| 0 <= x < j < s2.len() implies !(rx_matches(
            #[trigger] s2[x],
            s2[j].post_id,
            (#[trigger] s2[j]).user_id,
        )) by {
            if j == s.len() as int {
                assert(s2[x] == s[x]);
            }
        }
    }
}

/// After a react step the pair's row exists, holds the vote `b`, and its
/// find index is where the step put it.
pub proof fn lemma_react_found(s: Seq<Reaction>, post: u128, user: u128, b: bool, f: u64)
    requires
        rows_unique_pairs(s),
    ensures
        ({
            let s2 = spec_react_rows(s, post, user, b, f);
            let i = spec_find_rx(s, post, user);
            &&& spec_has_rx(s2, post, user)
            &&& spec_find_rx(s2, post, user) == if i >= 0 {
                i
            } else {
                s.len() as int
            }
            &&& spec_rx_is_like(s2, post, user) == b
        }),
{
    lemma_find_rx_props(s, post, user);
    let s2 = spec_react_rows(s, post, user, b, f);
    let i = spec_find_rx(s, post, user);
    if i >= 0 {
        lemma_find_rx_at(s2, post, user, i);
    } else {
        assert forall|j: int| 0 <= j < s.len() implies !rx_matches(#[trigger] s2[j], post, user) by {
            assert(s2[j] == s[j]);
        }
        lemma_find_rx_at(s2, post, user, s.len() as int);
    }
}

/// Reacting twice with the same vote from the same account on the same
/// post: the second call changes nothing — the rows, and with them both
/// aggregate totals, stay as the first call left them, with exactly one
/// row for the pair.
pub proof fn lemma_react_idempotent(
    s: Seq<Reaction>,
    post: u128,
    user: u128,
    b: bool,
    f1: u64,
    f2: u64,
)
    requires
        rows_unique_pairs(s),
    ensures
        ({
            let s1 = spec_react_rows(s, post, user, b, f1);
            let s2 = spec_react_rows(s1, post, user, b, f2);
            &&& s2 == s1
            &&& spec_pair_count(s2, post, user) == 1
            &&& spec_like_count(s2, post) == spec_like_count(s1, post)
            &&& spec_dislike_count(s2, post) == spec_dislike_count(s1, post)
        }),
{
    let s1 = spec_react_rows(s, post, user, b, f1);
    let s2 = spec_react_rows(s1, post, user, b, f2);
    lemma_find_rx_props(s, post, user);
    lemma_react_found(s, post, user, b, f1);
    lemma_unique_after_react(s, post, user, b, f1);
    lemma_pair_count_one(s1, post, user);
    let i = spec_find_rx(s, post, user);
    let k = spec_find_rx(s1, post, user);
    assert(s1[k] == Reaction { id: s1[k].id, post_id: post, user_id: user, is_like: b });
    assert(s2 =~= s1);
}

/// Reacting `like` then `dislike` from the same account on the same post:
/// the like total goes down by one, the dislike total up by one, and the
/// pair still has exactly one row.
pub proof fn lemma_react_flip(s: Seq<Reaction>, post: u128, user: u128, f1: u64, f2: u64)
    requires
        rows_unique_pairs(s),
    ensures
        ({
            let s1 = spec_react_rows(s, post, user, true, f1);
            let s2 = spec_react_rows(s1, post, user, false, f2);
            &&& spec_like_count(s2, post) == spec_like_count(s1, post) - 1
            &&& spec_dislike_count(s2, post) == spec_dislike_count(s1, post) + 1
            &&& spec_pair_count(s2, post, user) == 1
        }),
{
    let s1 = spec_react_rows(s, post, user, true, f1);
    let s2 = spec_react_rows(s1, post, user, false, f2);
    lemma_find_rx_props(s, post, user);
    lemma_react_found(s, post, user, true, f1);
    lemma_unique_after_react(s, post, user, true, f1);
    lemma_find_rx_props(s1, post, user);
    let k = spec_find_rx(s1, post, user);
    assert(s1[k].is_like == true && s1[k].post_id == post);
    lemma_counts_update(
        s1,
        k,
        Reaction { id: s1[k].id, post_id: post, user_id: user, is_like: false },
        post,
    );
    assert(spec_like_count(s1, post) >= 1) by {
        lemma_like_count_at_match(s1, k, post);
    }
    lemma_unique_after_react(s1, post, user, false, f2);
    lemma_react_found(s1, post, user, false, f2);
    lemma_pair_count_one(s2, post, user);
}

/// A row that likes `post` makes the like total at least one.
proof fn lemma_like_count_at_match(s: Seq<Reaction>, i: int, post: u128)
    requires
        0 <= i < s.len(),
        s[i].post_id == post,
        s[i].is_like,
    ensures
        spec_like_count(s, post) >= 1,
    decreases s.len(),
{
    if i < s.len() - 1 {
        lemma_like_count_at_match(s.drop_last(), i, post);
    }
}

/// First-time reactions from two distinct accounts on the same post both
/// persist, each with the vote it sent, and together they raise the post's
/// combined total by two.
pub proof fn lemma_react_two_accounts(
    s: Seq<Reaction>,
    post: u128,
    u1: u128,
    u2: u128,
    b1: bool,
    b2: bool,
    f1: u64,
    f2: u64,
)
    requires
        rows_unique_pairs(s),
        u1 != u2,
        !spec_has_rx(s, post, u1),
        !spec_has_rx(s, post, u2),
    ensures
        ({
            let s1 = spec_react_rows(s, post, u1, b1, f1);
            let s2 = spec_react_rows(s1, post, u2, b2, f2);
            &&& spec_has_rx(s2, post, u1)
            &&& spec_has_rx(s2, post, u2)
            &&& spec_rx_is_like(s2, post, u1) == b1
            &&& spec_rx_is_like(s2, post, u2) == b2
            &&& spec_like_count(s2, post) + spec_dislike_count(s2, post) == spec_like_count(
                s,
                post,
            ) + spec_dislike_count(s, post) + 2
        }),
{
    let r1 = Reaction { id: f1, post_id: post, user_id: u1, is_like: b1 };
    let r2 = Reaction { id: f2, post_id: post, user_id: u2, is_like: b2 };
    lemma_find_rx_props(s, post, u1);
    lemma_find_rx_props(s, post, u2);
    let s1 = spec_react_rows(s, post, u1, b1, f1);
    assert(s1 == s.push(r1));
    assert(spec_find_rx(s1, post, u2) == -1) by {
        assert forall|j: int| 0 <= j < s1.len() implies !rx_matches(#[trigger] s1[j], post, u2) by {
            if j < s.len() {
                assert(s1[j] == s[j]);
            }
        }
        lemma_find_rx_none(s1, post, u2);
    }
    let s2 = spec_react_rows(s1, post, u2, b2, f2);
    assert(s2 == s1.push(r2));
    lemma_counts_push(s, r1, post);
    lemma_counts_push(s1, r2, post);
    assert forall|j: int| 0 <= j < s.len() implies !rx_matches(#[trigger] s2[j], post, u1) by {
        assert(s2[j] == s[j]);
    }
    lemma_find_rx_at(s2, post, u1, s.len() as int);
    assert forall|j: int| 0 <= j < s1.len() implies !rx_matches(#[trigger] s2[j], post, u2) by {
        assert(s2[j] == s1[j]);
    }
    lemma_find_rx_at(s2, post, u2, s1.len() as int);
    assert(s2[s.len() as int] == r1);
    assert(s2[s1.len() as int] == r2);
}

} // verus!
