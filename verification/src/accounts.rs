use vstd::prelude::*;
use crate::errors::ApiError;
use crate::model::{Profile, User};
use crate::password::{argon2_matches, hash_password, verify_password};
use crate::schema::{LoginUserSchema, RegisterUserSchema};

verus! {

/// The index of the first account named `name`, or -1. Under the store's
/// invariant usernames are unique, so "first" is "the".
pub open spec fn spec_user_by_name(s: Seq<User>, name: Seq<char>) -> int
    decreases s.len(),
{
    if s.len() == 0 {
        -1
    } else if s[0].username@ == name {
        0
    } else {
        let r = spec_user_by_name(s.drop_first(), name);
        if r < 0 {
            -1
        } else {
            r + 1
        }
    }
}

/// The index of the first account with email `mail`, or -1.
pub open spec fn spec_user_by_email(s: Seq<User>, mail: Seq<char>) -> int
    decreases s.len(),
{
    if s.len() == 0 {
        -1
    } else if s[0].email@ == mail {
        0
    } else {
        let r = spec_user_by_email(s.drop_first(), mail);
        if r < 0 {
            -1
        } else {
            r + 1
        }
    }
}

/// The index of the first account with identifier `id`, or -1.
pub open spec fn spec_user_by_id(s: Seq<User>, id: u128) -> int
    decreases s.len(),
{
    if s.len() == 0 {
        -1
    } else if s[0].id == id {
        0
    } else {
        let r = spec_user_by_id(s.drop_first(), id);
        if r < 0 {
            -1
        } else {
            r + 1
        }
    }
}

/// The index of the first profile of account `user_id`, or -1.
pub open spec fn spec_profile_by_user(s: Seq<Profile>, user_id: u128) -> int
    decreases s.len(),
{
    if s.len() == 0 {
        -1
    } else if s[0].user_id == user_id {
        0
    } else {
        let r = spec_profile_by_user(s.drop_first(), user_id);
        if r < 0 {
            -1
        } else {
            r + 1
        }
    }
}

/// When `s[i]` is named `name` and no earlier account is, the find index
/// is `i`; when no account is, it is -1.
pub proof fn lemma_user_by_name_at(s: Seq<User>, name: Seq<char>, i: int)
    requires
        0 <= i < s.len(),
        s[i].username@ == name,
        forall|j: int| 0 <= j < i ==> (#[trigger] s[j]).username@ != name,
    ensures
        spec_user_by_name(s, name) == i,
    decreases s.len(),
{
    if i > 0 {
        lemma_user_by_name_at(s.drop_first(), name, i - 1);
    }
}

/// When no account is named `name`, the find index is -1.
pub proof fn lemma_user_by_name_none(s: Seq<User>, name: Seq<char>)
    requires
        forall|j: int| 0 <= j < s.len() ==> (#[trigger] s[j]).username@ != name,
    ensures
        spec_user_by_name(s, name) == -1,
    decreases s.len(),
{
    if s.len() > 0 {
        lemma_user_by_name_none(s.drop_first(), name);
    }
}

/// What a name-find index means: -1 with no account so named, or the
/// position of the first account named `name`.
pub proof fn lemma_user_by_name_props(s: Seq<User>, name: Seq<char>)
    ensures
        spec_user_by_name(s, name) == -1 || 0 <= spec_user_by_name(s, name) < s.len(),
        spec_user_by_name(s, name) >= 0 ==> s[spec_user_by_name(s, name)].username@ == name,
        spec_user_by_name(s, name) == -1 ==> forall|j: int|
            0 <= j < s.len() ==> (#[trigger] s[j]).username@ != name,
    decreases s.len(),
{
    if s.len() > 0 {
        lemma_user_by_name_props(s.drop_first(), name);
        if s[0].username@ != name {
            let r = spec_user_by_name(s.drop_first(), name);
            if r >= 0 {
                assert(s[r + 1] == s.drop_first()[r]);
            }
            assert forall|j: int| 1 <= j < s.len() implies s.drop_first()[j - 1] == #[trigger] s[j] by {}
        }
    }
}

/// Like the name lemmas, for email.
pub proof fn lemma_user_by_email_at(s: Seq<User>, mail: Seq<char>, i: int)
    requires
        0 <= i < s.len(),
        s[i].email@ == mail,
        forall|j: int| 0 <= j < i ==> (#[trigger] s[j]).email@ != mail,
    ensures
        spec_user_by_email(s, mail) == i,
    decreases s.len(),
{
    if i > 0 {
        lemma_user_by_email_at(s.drop_first(), mail, i - 1);
    }
}

/// Like the name lemmas, for email.
pub proof fn lemma_user_by_email_none(s: Seq<User>, mail: Seq<char>)
    requires
        forall|j: int| 0 <= j < s.len() ==> (#[trigger] s[j]).email@ != mail,
    ensures
        spec_user_by_email(s, mail) == -1,
    decreases s.len(),
{
    if s.len() > 0 {
        lemma_user_by_email_none(s.drop_first(), mail);
    }
}

/// What an email-find index means: -1 with no account holding the email,
/// or the position of the first account that does.
pub proof fn lemma_user_by_email_props(s: Seq<User>, mail: Seq<char>)
    ensures
        spec_user_by_email(s, mail) == -1 || 0 <= spec_user_by_email(s, mail) < s.len(),
        spec_user_by_email(s, mail) >= 0 ==> s[spec_user_by_email(s, mail)].email@ == mail,
        spec_user_by_email(s, mail) == -1 ==> forall|j: int|
            0 <= j < s.len() ==> (#[trigger] s[j]).email@ != mail,
    decreases s.len(),
{
    if s.len() > 0 {
        lemma_user_by_email_props(s.drop_first(), mail);
        if s[0].email@ != mail {
            let r = spec_user_by_email(s.drop_first(), mail);
            if r >= 0 {
                assert(s[r + 1] == s.drop_first()[r]);
            }
            assert forall|j: int| 1 <= j < s.len() implies s.drop_first()[j - 1] == #[trigger] s[j] by {}
        }
    }
}

/// Like the name lemmas, for identifier.
pub proof fn lemma_user_by_id_at(s: Seq<User>, id: u128, i: int)
    requires
        0 <= i < s.len(),
        s[i].id == id,
        forall|j: int| 0 <= j < i ==> (#[trigger] s[j]).id != id,
    ensures
        spec_user_by_id(s, id) == i,
    decreases s.len(),
{
    if i > 0 {
        lemma_user_by_id_at(s.drop_first(), id, i - 1);
    }
}

/// Like the name lemmas, for identifier.
pub proof fn lemma_user_by_id_none(s: Seq<User>, id: u128)
    requires
        forall|j: int| 0 <= j < s.len() ==> (#[trigger] s[j]).id != id,
    ensures
        spec_user_by_id(s, id) == -1,
    decreases s.len(),
{
    if s.len() > 0 {
        lemma_user_by_id_none(s.drop_first(), id);
    }
}

/// Like the name lemmas, for profiles by account.
pub proof fn lemma_profile_by_user_at(s: Seq<Profile>, user_id: u128, i: int)
    requires
        0 <= i < s.len(),
        s[i].user_id == user_id,
        forall|j: int| 0 <= j < i ==> (#[trigger] s[j]).user_id != user_id,
    ensures
        spec_profile_by_user(s, user_id) == i,
    decreases s.len(),
{
    if i > 0 {
        lemma_profile_by_user_at(s.drop_first(), user_id, i - 1);
    }
}

/// Like the name lemmas, for profiles by account.
pub proof fn lemma_profile_by_user_none(s: Seq<Profile>, user_id: u128)
    requires
        forall|j: int| 0 <= j < s.len() ==> (#[trigger] s[j]).user_id != user_id,
    ensures
        spec_profile_by_user(s, user_id) == -1,
    decreases s.len(),
{
    if s.len() > 0 {
        lemma_profile_by_user_none(s.drop_first(), user_id);
    }
}

/// The ASCII-lowercase image of a character: the letters 'A' to 'Z' map
/// to 'a' to 'z', every other character is kept.
pub open spec fn ascii_lower_char(c: char) -> char {
    if 'A' <= c && c <= 'Z' {
        ((c as u32) + 32) as char
    } else {
        c
    }
}

/// The ASCII-lowercase image of a string, character by character.
pub open spec fn ascii_lower(s: Seq<char>) -> Seq<char> {
    s.map_values(|c: char| ascii_lower_char(c))
}

/// Relies on str::to_ascii_lowercase: ASCII letters 'A' to 'Z' are mapped
/// to their lowercase equivalents and every other character is kept, one
/// for one.
#[verifier::external_body]
fn ascii_lowercase(s: &str) -> (r: String)
    ensures
        r@ == ascii_lower(s@),
{
    s.to_ascii_lowercase()
}

/// Whether two store states hold the same rows and counter.
pub open spec fn store_unchanged(a: AccountStore, b: AccountStore) -> bool {
    a.users@ == b.users@ && a.profiles@ == b.profiles@ && a.next_id == b.next_id
}

/// The credential store: the account table with its profiles and the
/// identifier counter. Usernames, emails and identifiers are globally
/// unique. Uniqueness is kept here by lookup-before-insert; a
/// multi-process deployment must back it with storage-level unique
/// constraints, since the lookup and the insert are not atomic across
/// processes.
pub struct AccountStore {
    pub users: Vec<User>,
    pub profiles: Vec<Profile>,
    pub next_id: u128,
}

impl AccountStore {
    /// The store's invariant: identifiers below the counter and unique,
    /// usernames unique, emails unique, at most one profile per account.
    pub open spec fn wf(&self) -> bool {
        &&& forall|i: int|
            0 <= i < self.users@.len() ==> (#[trigger] self.users@[i]).id < self.next_id
        &&& forall|i: int, j: int|
            0 <= i < j < self.users@.len() ==> (#[trigger] self.users@[i]).id != (
            #[trigger] self.users@[j]).id
        &&& forall|i: int, j: int|
            0 <= i < j < self.users@.len() ==> (#[trigger] self.users@[i]).username@ != (
            #[trigger] self.users@[j]).username@
        &&& forall|i: int, j: int|
            0 <= i < j < self.users@.len() ==> (#[trigger] self.users@[i]).email@ != (
            #[trigger] self.users@[j]).email@
        &&& forall|i: int|
            0 <= i < self.profiles@.len() ==> (#[trigger] self.profiles@[i]).user_id
                < self.next_id
        &&& forall|i: int, j: int|
            0 <= i < j < self.profiles@.len() ==> (#[trigger] self.profiles@[i]).user_id != (
            #[trigger] self.profiles@[j]).user_id
    }

    /// An empty store.
    pub fn new() -> (r: AccountStore)
        ensures
            r.wf(),
            r.users@ == Seq::<User>::empty(),
            r.profiles@ == Seq::<Profile>::empty(),
            r.next_id == 0,
    {
        AccountStore { users: Vec::new(), profiles: Vec::new(), next_id: 0 }
    }

    /// Looks an account up by username.
    pub fn find_account_by_username(&self, username: &String) -> (r: Option<&User>)
        ensures
            ({
                let i = spec_user_by_name(self.users@, username@);
                &&& i == -1 ==> r is None
                &&& i >= 0 ==> (r matches Some(u) && *u == self.users@[i])
            }),
    {
        let n = self.users.len();
        let mut k: usize = 0;
        while k < n
            invariant
                k <= n,
                n == self.users@.len(),
                forall|j: int| 0 <= j < k ==> (#[trigger] self.users@[j]).username@ != username@,
            decreases n - k,
        {
            if self.users[k].username == *username {
                proof {
                    lemma_user_by_name_at(self.users@, username@, k as int);
                }
                return Some(&self.users[k]);
            }
            k = k + 1;
        }
        proof {
            lemma_user_by_name_none(self.users@, username@);
        }
        None
    }

    /// Looks an account up by email.
    fn find_account_by_email(&self, email: &String) -> (r: Option<&User>)
        ensures
            ({
                let i = spec_user_by_email(self.users@, email@);
                &&& i == -1 ==> r is None
                &&& i >= 0 ==> (r matches Some(u) && *u == self.users@[i])
            }),
    {
        let n = self.users.len();
        let mut k: usize = 0;
        while k < n
            invariant
                k <= n,
                n == self.users@.len(),
                forall|j: int| 0 <= j < k ==> (#[trigger] self.users@[j]).email@ != email@,
            decreases n - k,
        {
            if self.users[k].email == *email {
                proof {
                    lemma_user_by_email_at(self.users@, email@, k as int);
                }
                return Some(&self.users[k]);
            }
            k = k + 1;
        }
        proof {
            lemma_user_by_email_none(self.users@, email@);
        }
        None
    }

    /// Looks an account up by identifier.
    pub fn find_account_by_id(&self, id: u128) -> (r: Option<&User>)
        ensures
            ({
                let i = spec_user_by_id(self.users@, id);
                &&& i == -1 ==> r is None
                &&& i >= 0 ==> (r matches Some(u) && *u == self.users@[i])
            }),
    {
        let n = self.users.len();
        let mut k: usize = 0;
        while k < n
            invariant
                k <= n,
                n == self.users@.len(),
                forall|j: int| 0 <= j < k ==> (#[trigger] self.users@[j]).id != id,
            decreases n - k,
        {
            if self.users[k].id == id {
                proof {
                    lemma_user_by_id_at(self.users@, id, k as int);
                }
                return Some(&self.users[k]);
            }
            k = k + 1;
        }
        proof {
            lemma_user_by_id_none(self.users@, id);
        }
        None
    }

    /// Inserts a new account row with a fresh identifier, the given stored
    /// password hash, the default role and `now` as both timestamps. The
    /// caller has established that the username and the email are not yet
    /// taken, as the store's uniqueness constraints demand.
    pub fn insert_account(
        &mut self,
        username: &String,
        email: &String,
        password_hash: &String,
        now: i64,
    ) -> (r: u128)
        requires
            old(self).wf(),
            old(self).next_id < u128::MAX,
            spec_user_by_name(old(self).users@, username@) == -1,
            spec_user_by_email(old(self).users@, email@) == -1,
        ensures
            final(self).wf(),
            r == old(self).next_id,
            final(self).next_id == old(self).next_id + 1,
            final(self).users@.len() == old(self).users@.len() + 1,
            final(self).users@.drop_last() == old(self).users@,
            ({
                let u = final(self).users@.last();
                &&& u.id == old(self).next_id
                &&& u.username@ == username@
                &&& u.email@ == email@
                &&& u.password@ == password_hash@
                &&& u.role@ == "user"@
                &&& u.created_at == now
                &&& u.updated_at == now
            }),
            final(self).profiles@ == old(self).profiles@,
    {
        proof {
            lemma_user_by_name_props(self.users@, username@);
            lemma_user_by_email_props(self.users@, email@);
        }
        let id = self.next_id;
        let user = User {
            id,
            username: username.clone(),
            email: email.clone(),
            password: password_hash.clone(),
            role: "user".to_string(),
            created_at: now,
            updated_at: now,
        };
        self.users.push(user);
        self.next_id = id + 1;
        proof {
            assert(self.users@.drop_last() =~= old(self).users@);
            assert forall|i: int, j: int|
                0 <= i < j < self.users@.len() implies (#[trigger] self.users@[i]).username@ != (
            #[trigger] self.users@[j]).username@ by {
                if j == self.users@.len() - 1 {
                    assert(self.users@[i] == old(self).users@[i]);
                }
            }
            assert forall|i: int, j: int|
                0 <= i < j < self.users@.len() implies (#[trigger] self.users@[i]).email@ != (
            #[trigger] self.users@[j]).email@ by {
                if j == self.users@.len() - 1 {
                    assert(self.users@[i] == old(self).users@[i]);
                }
            }
        }
        id
    }

    /// The registration flow: reject a taken username, then a taken email,
    /// each with its message and the store unchanged; otherwise hash the
    /// password (a hashing fault becomes a generic internal error), insert
    /// the account with a fresh identifier and give it a default profile.
    /// The email is stored ASCII-lowercased, and the duplicate pre-check
    /// compares that normalized form too: checking the raw spelling while
    /// storing the normalized one would let two spellings of one address
    /// both register.
    pub fn register_user(&mut self, body: &RegisterUserSchema, now: i64) -> (r: Result<
        u128,
        ApiError,
    >)
        requires
            old(self).wf(),
            old(self).next_id < u128::MAX - 1,
        ensures
            final(self).wf(),
            ({
                let name_taken = spec_user_by_name(old(self).users@, body.username@) >= 0;
                let mail_taken = spec_user_by_email(
                    old(self).users@,
                    ascii_lower(body.email@),
                ) >= 0;
                &&& name_taken ==> (r matches Err(ApiError::BadRequest(m)) && m@
                    == "username is taken"@ && store_unchanged(*old(self), *final(self)))
                &&& !name_taken && mail_taken ==> (r matches Err(ApiError::BadRequest(m)) && m@
                    == "Email is taken"@ && store_unchanged(*old(self), *final(self)))
                &&& !name_taken && !mail_taken ==> match r {
                    Ok(id) => {
                        &&& id == old(self).next_id
                        &&& final(self).next_id == old(self).next_id + 2
                        &&& final(self).users@.len() == old(self).users@.len() + 1
                        &&& final(self).users@.drop_last() == old(self).users@
                        &&& ({
                            let u = final(self).users@.last();
                            &&& u.id == id
                            &&& u.username@ == body.username@
                            &&& u.email@ == ascii_lower(body.email@)
                            &&& argon2_matches(body.password@, u.password@)
                            &&& u.role@ == "user"@
                            &&& u.created_at == now
                            &&& u.updated_at == now
                        })
                        &&& final(self).profiles@.len() == old(self).profiles@.len() + 1
                        &&& final(self).profiles@.drop_last() == old(self).profiles@
                        &&& ({
                            let p = final(self).profiles@.last();
                            &&& p.user_id == id
                            &&& p.photo@ == "default.jpg"@
                            &&& (p.bio matches Some(b) && b@ == ""@)
                            &&& p.created_at == now
                            &&& p.updated_at == now
                        })
                    },
                    Err(e) => {
                        &&& e is InternalServerError
                        &&& store_unchanged(*old(self), *final(self))
                    },
                }
            }),
    {
        let email_norm = ascii_lowercase(body.email.as_str());
        proof {
            lemma_user_by_name_props(self.users@, body.username@);
            lemma_user_by_email_props(self.users@, email_norm@);
        }
        if self.find_account_by_username(&body.username).is_some() {
            return Err(ApiError::BadRequest("username is taken".to_string()));
        }
        if self.find_account_by_email(&email_norm).is_some() {
            return Err(ApiError::BadRequest("Email is taken".to_string()));
        }
        let hashed = match hash_password(body.password.as_str()) {
            Some(h) => h,
            None => {
                return Err(ApiError::InternalServerError);
            },
        };
        let id = self.insert_account(&body.username, &email_norm, &hashed, now);
        self.next_id = self.next_id + 1;
        let profile = Profile {
            id: id + 1,
            user_id: id,
            photo: "default.jpg".to_string(),
            bio: Some("".to_string()),
            created_at: now,
            updated_at: now,
        };
        self.profiles.push(profile);
        proof {
            assert(self.profiles@.drop_last() =~= old(self).profiles@);
            assert forall|i: int, j: int|
                0 <= i < j < self.profiles@.len() implies (#[trigger] self.profiles@[i]).user_id
                != (#[trigger] self.profiles@[j]).user_id by {
                if j == self.profiles@.len() - 1 {
                    assert(self.profiles@[i] == old(self).profiles@[i]);
                }
            }
        }
        Ok(id)
    }

    /// The login flow: an unknown username is rejected as "user does not
    /// exist"; a known one has the presented password verified against the
    /// stored hash, yielding the account identifier on a match and
    /// "incorrect password" otherwise. A malformed stored hash verifies as
    /// false, indistinguishable from a wrong password.
    pub fn login_user(&self, body: &LoginUserSchema) -> (r: Result<u128, ApiError>)
        ensures
            ({
                let i = spec_user_by_name(self.users@, body.username@);
                &&& i == -1 ==> (r matches Err(ApiError::BadRequest(m)) && m@
                    == "user does not exist"@)
                &&& i >= 0 ==> if argon2_matches(body.password@, self.users@[i].password@) {
                    r == Ok::<u128, ApiError>(self.users@[i].id)
                } else {
                    (r matches Err(ApiError::BadRequest(m)) && m@ == "incorrect password"@)
                }
            }),
    {
        proof {
            lemma_user_by_name_props(self.users@, body.username@);
        }
        let user = match self.find_account_by_username(&body.username) {
            Some(u) => u,
            None => {
                return Err(ApiError::BadRequest("user does not exist".to_string()));
            },
        };
        let is_valid = verify_password(body.password.as_str(), user.password.as_str());
        if !is_valid {
            return Err(ApiError::BadRequest("incorrect password".to_string()));
        }
        Ok(user.id)
    }

    /// The profile lookup: resolve the username to an account, then the
    /// account to its profile, rejecting each miss with its message.
    pub fn get_profile(&self, username: &String) -> (r: Result<&Profile, ApiError>)
        ensures
            ({
                let i = spec_user_by_name(self.users@, username@);
                &&& i == -1 ==> (r matches Err(ApiError::NotFound(m)) && m@ == "User not found"@)
                &&& i >= 0 ==> ({
                    let j = spec_profile_by_user(self.profiles@, self.users@[i].id);
                    &&& j == -1 ==> (r matches Err(ApiError::NotFound(m)) && m@
                        == "Profile not found"@)
                    &&& j >= 0 ==> (r matches Ok(p) && *p == self.profiles@[j])
                })
            }),
    {
        proof {
            lemma_user_by_name_props(self.users@, username@);
        }
        let user = match self.find_account_by_username(username) {
            Some(u) => u,
            None => {
                return Err(ApiError::NotFound("User not found".to_string()));
            },
        };
        let user_id = user.id;
        let n = self.profiles.len();
        let mut k: usize = 0;
        while k < n
            invariant
                k <= n,
                n == self.profiles@.len(),
                spec_user_by_name(self.users@, username@) >= 0,
                user_id == self.users@[spec_user_by_name(self.users@, username@)].id,
                forall|j: int| 0 <= j < k ==> (#[trigger] self.profiles@[j]).user_id != user_id,
            decreases n - k,
        {
            if self.profiles[k].user_id == user_id {
                proof {
                    lemma_profile_by_user_at(self.profiles@, user_id, k as int);
                }
                return Ok(&self.profiles[k]);
            }
            k = k + 1;
        }
        proof {
            lemma_profile_by_user_none(self.profiles@, user_id);
        }
        Err(ApiError::NotFound("Profile not found".to_string()))
    }

    /// Looks the profile of account `user_id` up.
    pub fn find_profile_by_user(&self, user_id: u128) -> (r: Option<&Profile>)
        ensures
            ({
                let j = spec_profile_by_user(self.profiles@, user_id);
                &&& j == -1 ==> r is None
                &&& j >= 0 ==> (r matches Some(p) && *p == self.profiles@[j])
            }),
    {
        let n = self.profiles.len();
        let mut k: usize = 0;
        while k < n
            invariant
                k <= n,
                n == self.profiles@.len(),
                forall|j: int| 0 <= j < k ==> (#[trigger] self.profiles@[j]).user_id != user_id,
            decreases n - k,
        {
            if self.profiles[k].user_id == user_id {
                proof {
                    lemma_profile_by_user_at(self.profiles@, user_id, k as int);
                }
                return Some(&self.profiles[k]);
            }
            k = k + 1;
        }
        proof {
            lemma_profile_by_user_none(self.profiles@, user_id);
        }
        None
    }

    /// All account rows, as stored.
    pub fn get_all_users(&self) -> (r: &Vec<User>)
        ensures
            r@ == self.users@,
    {
        &self.users
    }
}

} // verus!
