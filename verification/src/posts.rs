use vstd::prelude::*;
use crate::accounts::{AccountStore, spec_profile_by_user, spec_user_by_id};
use crate::errors::ApiError;
use crate::ledger::{ReactionLedger, spec_like_count, spec_dislike_count};
use crate::model::{Post, Profile, User};
use crate::response::PostResponse;
use crate::schema::CreatePostSchema;

verus! {

/// The index of the first post with identifier `id`, or -1. Under the
/// store's invariant identifiers are unique.
pub open spec fn spec_post_by_id(s: Seq<Post>, id: u128) -> int
    decreases s.len(),
{
    if s.len() == 0 {
        -1
    } else if s[0].id == id {
        0
    } else {
        let r = spec_post_by_id(s.drop_first(), id);
        if r < 0 {
            -1
        } else {
            r + 1
        }
    }
}

/// When `s[i]` has identifier `id` and no earlier post does, the find
/// index is `i`.
pub proof fn lemma_post_by_id_at(s: Seq<Post>, id: u128, i: int)
    requires
        0 <= i < s.len(),
        s[i].id == id,
        forall|j: int| 0 <= j < i ==> (#[trigger] s[j]).id != id,
    ensures
        spec_post_by_id(s, id) == i,
    decreases s.len(),
{
    if i > 0 {
        lemma_post_by_id_at(s.drop_first(), id, i - 1);
    }
}

/// When no post has identifier `id`, the find index is -1.
pub proof fn lemma_post_by_id_none(s: Seq<Post>, id: u128)
    requires
        forall|j: int| 0 <= j < s.len() ==> (#[trigger] s[j]).id != id,
    ensures
        spec_post_by_id(s, id) == -1,
    decreases s.len(),
{
    if s.len() > 0 {
        lemma_post_by_id_none(s.drop_first(), id);
    }
}

/// The post table, with its identifier counter.
pub struct PostStore {
    pub posts: Vec<Post>,
    pub next_id: u128,
}

/// The listing row of one post, looked up in its stores: the post joined
/// with its author's username and profile photo and with the reaction
/// totals derived from the ledger's rows. A post whose author or whose
/// author's profile is gone has no listing row, as an inner join drops it.
pub open spec fn spec_listing_entry(
    p: Post,
    users: Seq<User>,
    profiles: Seq<Profile>,
    rows: Seq<crate::ledger::Reaction>,
) -> Seq<PostResponse> {
    let i = spec_user_by_id(users, p.user_id);
    let j = spec_profile_by_user(profiles, p.user_id);
    if i >= 0 && j >= 0 {
        seq![
            PostResponse {
                post_id: p.id,
                author_id: p.user_id,
                author: users[i].username,
                author_pfp: profiles[j].photo,
                title: p.title,
                content: p.content,
                like_count: Some(spec_like_count(rows, p.id) as i64),
                dislike_count: Some(spec_dislike_count(rows, p.id) as i64),
                updated_at: p.updated_at,
                created_at: p.created_at,
            },
        ]
    } else {
        seq![]
    }
}

/// The rows of the post listing join, enumerated newest insertion first;
/// the listing itself orders them by creation time.
pub open spec fn spec_post_listing(
    posts: Seq<Post>,
    users: Seq<User>,
    profiles: Seq<Profile>,
    rows: Seq<crate::ledger::Reaction>,
) -> Seq<PostResponse>
    decreases posts.len(),
{
    if posts.len() == 0 {
        seq![]
    } else {
        spec_listing_entry(posts.last(), users, profiles, rows) + spec_post_listing(
            posts.drop_last(),
            users,
            profiles,
            rows,
        )
    }
}

impl PostStore {
    /// The store's invariant: post identifiers below the counter and
    /// unique.
    pub open spec fn wf(&self) -> bool {
        &&& forall|i: int|
            0 <= i < self.posts@.len() ==> (#[trigger] self.posts@[i]).id < self.next_id
        &&& forall|i: int, j: int|
            0 <= i < j < self.posts@.len() ==> (#[trigger] self.posts@[i]).id != (
            #[trigger] self.posts@[j]).id
    }

    /// An empty store.
    pub fn new() -> (r: PostStore)
        ensures
            r.wf(),
            r.posts@ == Seq::<Post>::empty(),
            r.next_id == 0,
    {
        PostStore { posts: Vec::new(), next_id: 0 }
    }

    /// Inserts a post authored by `user_id`, with `now` as both
    /// timestamps, and returns its fresh identifier.
    pub fn create_post(&mut self, user_id: u128, body: &CreatePostSchema, now: i64) -> (r: u128)
        requires
            old(self).wf(),
            old(self).next_id < u128::MAX,
        ensures
            final(self).wf(),
            r == old(self).next_id,
            final(self).next_id == old(self).next_id + 1,
            final(self).posts@.len() == old(self).posts@.len() + 1,
            final(self).posts@.drop_last() == old(self).posts@,
            ({
                let p = final(self).posts@.last();
                &&& p.id == r
                &&& p.user_id == user_id
                &&& p.title@ == body.title@
                &&& p.content@ == body.content@
                &&& p.created_at == now
                &&& p.updated_at == now
            }),
    {
        let id = self.next_id;
        let post = Post {
            id,
            user_id,
            title: body.title.clone(),
            content: body.content.clone(),
            created_at: now,
            updated_at: now,
        };
        self.posts.push(post);
        self.next_id = id + 1;
        proof {
            assert(self.posts@.drop_last() =~= old(self).posts@);
        }
        id
    }

    /// Deletes a post: an unknown identifier is rejected as not found, a
    /// caller who is not the author is turned away with the post kept, and
    /// the author's own post is removed.
    pub fn delete_post(&mut self, user_id: u128, post_id: u128) -> (r: Result<(), ApiError>)
        requires
            old(self).wf(),
        ensures
            final(self).wf(),
            ({
                let i = spec_post_by_id(old(self).posts@, post_id);
                let kept = final(self).posts@ == old(self).posts@;
                &&& final(self).next_id == old(self).next_id
                &&& i == -1 ==> ((r matches Err(ApiError::NotFound(m)) && m@ == "Post not found"@)
                    && kept)
                &&& i >= 0 && old(self).posts@[i].user_id != user_id ==> ((r matches Err(
                    ApiError::BadRequest(m)) && m@ == "not authorized to delete post"@) && kept)
                &&& i >= 0 && old(self).posts@[i].user_id == user_id ==> (r is Ok && final(
                    self).posts@ == old(self).posts@.remove(i))
            }),
    {
        let n = self.posts.len();
        let mut k: usize = 0;
        while k < n
            invariant
                k <= n,
                n == self.posts@.len(),
                old(self) == self,
                old(self).wf(),
                forall|j: int| 0 <= j < k ==> (#[trigger] self.posts@[j]).id != post_id,
            decreases n - k,
        {
            if self.posts[k].id == post_id {
                proof {
                    lemma_post_by_id_at(self.posts@, post_id, k as int);
                }
                if self.posts[k].user_id != user_id {
                    return Err(ApiError::BadRequest("not authorized to delete post".to_string()));
                }
                self.posts.remove(k);
                proof {
                    assert forall|x: int, y: int|
                        0 <= x < y < self.posts@.len() implies (#[trigger] self.posts@[x]).id != (
                    #[trigger] self.posts@[y]).id by {
                        assert(self.posts@[x] == if x < k as int {
                            old(self).posts@[x]
                        } else {
                            old(self).posts@[x + 1]
                        });
                        assert(self.posts@[y] == if y < k as int {
                            old(self).posts@[y]
                        } else {
                            old(self).posts@[y + 1]
                        });
                    }
                }
                return Ok(());
            }
            k = k + 1;
        }
        proof {
            lemma_post_by_id_none(self.posts@, post_id);
        }
        Err(ApiError::NotFound("Post not found".to_string()))
    }

    /// The post listing, newest first by creation time: each post joined
    /// with its author's username and profile photo and with the like and
    /// dislike totals derived fresh from the reaction rows; posts whose
    /// author or profile rows are gone are dropped, as the join demands.
    /// The result holds exactly the rows of the join, ordered by
    /// `created_at` descending (rows with equal times in no fixed order).
    pub fn get_all_posts(&self, accounts: &AccountStore, ledger: &ReactionLedger) -> (r: Vec<
        PostResponse,
    >)
        requires
            ledger.rows@.len() <= i64::MAX,
        ensures
            r@.to_multiset() == spec_post_listing(
                self.posts@,
                accounts.users@,
                accounts.profiles@,
                ledger.rows@,
            ).to_multiset(),
            listing_sorted(r@),
    {
        let n = self.posts.len();
        let mut out: Vec<PostResponse> = Vec::new();
        let mut i: usize = n;
        proof {
            assert(self.posts@.take(n as int) =~= self.posts@);
        }
        while i > 0
            invariant
                i <= n,
                n == self.posts@.len(),
                ledger.rows@.len() <= i64::MAX,
                spec_post_listing(self.posts@, accounts.users@, accounts.profiles@, ledger.rows@)
                    =~= out@ + spec_post_listing(
                    self.posts@.take(i as int),
                    accounts.users@,
                    accounts.profiles@,
                    ledger.rows@,
                ),
            decreases i,
        {
            let post = &self.posts[i - 1];
            proof {
                assert(self.posts@.take(i as int).last() == self.posts@[i - 1]);
                assert(self.posts@.take(i as int).drop_last() =~= self.posts@.take(i - 1));
            }
            let author = accounts.find_account_by_id(post.user_id);
            let profile = accounts.find_profile_by_user(post.user_id);
            match (author, profile) {
                (Some(u), Some(p)) => {
                    let (likes, dislikes) = ledger.counts_for(post.id);
                    let entry = PostResponse {
                        post_id: post.id,
                        author_id: post.user_id,
                        author: u.username.clone(),
                        author_pfp: p.photo.clone(),
                        title: post.title.clone(),
                        content: post.content.clone(),
                        like_count: Some(likes as i64),
                        dislike_count: Some(dislikes as i64),
                        updated_at: post.updated_at,
                        created_at: post.created_at,
                    };
                    out.push(entry);
                },
                _ => {},
            }
            i = i - 1;
        }
        proof {
            assert(spec_post_listing(
                self.posts@.take(0),
                accounts.users@,
                accounts.profiles@,
                ledger.rows@,
            ) =~= Seq::<PostResponse>::empty());
            assert(out@ =~= spec_post_listing(
                self.posts@,
                accounts.users@,
                accounts.profiles@,
                ledger.rows@,
            ));
        }
        sort_listing(out)
    }
}

/// Whether the listing rows are ordered newest first by creation time.
pub open spec fn listing_sorted(s: Seq<PostResponse>) -> bool {
    forall|i: int, j: int|
        0 <= i < j < s.len() ==> (#[trigger] s[i]).created_at >= (#[trigger] s[j]).created_at
}

/// Orders listing rows by `created_at` descending, keeping exactly the
/// rows given (a selection sort: the newest remaining row is moved out
/// each round).
fn sort_listing(v: Vec<PostResponse>) -> (r: Vec<PostResponse>)
    ensures
        r@.to_multiset() == v@.to_multiset(),
        listing_sorted(r@),
{
    broadcast use vstd::seq_lib::group_to_multiset_ensures;

    let ghost orig = v@;
    let mut rest = v;
    let mut out: Vec<PostResponse> = Vec::new();
    proof {
        assert(out@.to_multiset().add(rest@.to_multiset()) =~= orig.to_multiset());
    }
    while rest.len() != 0
        invariant
            out@.to_multiset().add(rest@.to_multiset()) == orig.to_multiset(),
            listing_sorted(out@),
            forall|k: int, m: int|
                0 <= k < out@.len() && 0 <= m < rest@.len() ==> (#[trigger] out@[k]).created_at
                    >= (#[trigger] rest@[m]).created_at,
        decreases rest@.len(),
    {
        let n = rest.len();
        let mut m: usize = 0;
        let mut k: usize = 1;
        while k < n
            invariant
                m < k <= n,
                n == rest@.len(),
                forall|t: int|
                    0 <= t < k ==> rest@[m as int].created_at >= (#[trigger] rest@[t]).created_at,
            decreases n - k,
        {
            if rest[k].created_at > rest[m].created_at {
                m = k;
            }
            k = k + 1;
        }
        let ghost pre = rest@;
        let ghost out_pre = out@;
        let x = rest.remove(m);
        out.push(x);
        proof {
            assert(pre.contains(x)) by {
                assert(pre[m as int] == x);
            }
            vstd::seq_lib::to_multiset_remove(pre, m as int);
            vstd::seq_lib::to_multiset_build(out_pre, x);
            pre.to_multiset_ensures();
            assert(pre.to_multiset().count(x) >= 1);
            assert(out@.to_multiset().add(rest@.to_multiset()) =~= orig.to_multiset());
            assert forall|a: int, b: int|
                0 <= a < b < out@.len() implies (#[trigger] out@[a]).created_at >= (
            #[trigger] out@[b]).created_at by {
                if b < out@.len() - 1 {
                    assert(out@[a] == out@.drop_last()[a] && out@[b] == out@.drop_last()[b]);
                }
            }
            assert forall|a: int, b: int|
                0 <= a < out@.len() && 0 <= b < rest@.len() implies (
            #[trigger] out@[a]).created_at >= (#[trigger] rest@[b]).created_at by {
                assert(rest@[b] == if b < m as int {
                    pre[b]
                } else {
                    pre[b + 1]
                });
            }
        }
    }
    out
}

} // verus!
