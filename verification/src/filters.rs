use vstd::prelude::*;
use crate::model::User;

verus! {

/// The public projection of an account: what may be shown to other
/// clients, with the credential fields stripped.
#[derive(Clone, Debug)]
pub struct FilterdUser {
    pub id: u128,
    pub username: String,
}

/// Strips an account down to its public fields.
pub fn filter_user(user: &User) -> (r: FilterdUser)
    ensures
        r.id == user.id,
        r.username@ == user.username@,
{
    FilterdUser { id: user.id, username: user.username.clone() }
}

} // verus!
