use vstd::prelude::*;

verus! {

/// An account row. Identifiers are 128-bit values (the persistence layer's
/// UUIDs carried as plain integers); timestamps are unix seconds.
#[derive(Clone, Debug)]
pub struct User {
    pub id: u128,
    pub username: String,
    pub email: String,
    pub password: String,
    pub role: String,
    pub created_at: i64,
    pub updated_at: i64,
}

/// The projection of an account consulted at login: its identifier and
/// stored password hash.
#[derive(Clone, Debug)]
pub struct Register {
    pub id: u128,
    pub password: String,
}

/// A profile row, one per account, created at registration.
#[derive(Clone, Debug)]
pub struct Profile {
    pub id: u128,
    pub user_id: u128,
    pub photo: String,
    pub bio: Option<String>,
    pub created_at: i64,
    pub updated_at: i64,
}

/// A post row.
#[derive(Clone, Debug)]
pub struct Post {
    pub id: u128,
    pub user_id: u128,
    pub title: String,
    pub content: String,
    pub created_at: i64,
    pub updated_at: i64,
}

} // verus!
