use vstd::prelude::*;
use crate::errors::ApiError;
use crate::model::User;
use crate::token::{Token, spec_token_valid, spec_issue_token, issue_token, verify_token};

verus! {

/// How a deployment issues identity proofs. Exactly one variant is active
/// per deployment: stateless tokens keyed by a server-held secret with a
/// fixed lifetime, or opaque keys resolved through a shared session store
/// with sliding expiry.
#[derive(Clone, Copy, Debug, PartialEq, Eq, Structural)]
pub enum IssuerConfig {
    Stateless { secret: u64, lifetime_secs: u64 },
    Stateful { ttl_secs: u64 },
}

/// The artifact a client presents to demonstrate a prior login: a
/// self-contained token, or an opaque key into the session store.
#[derive(Clone, Copy, Debug, PartialEq, Eq, Structural)]
pub enum IdentityProof {
    Token(Token),
    SessionKey(u128),
}

/// Why the middleware turned a request away. `Unauthorized` covers a
/// missing, malformed, tampered or expired proof and a subject that no
/// longer resolves to an account; `StoreFailure` is a session-store fault,
/// the one failure reported as a server error rather than as missing
/// identity.
#[derive(Clone, Copy, Debug, PartialEq, Eq, Structural)]
pub enum AuthDenial {
    Unauthorized,
    StoreFailure,
}

/// What the middleware has decided after examining the proof itself: the
/// subject still has to be resolved against the credential store, or the
/// request is rejected outright.
#[derive(Clone, Copy, Debug, PartialEq, Eq, Structural)]
pub enum AuthStep {
    LookupAccount(u128),
    Reject(AuthDenial),
}

/// What the shared session store answered for an opaque key: the account
/// identifier stored under it, a miss (absent or expired), or a store
/// fault.
#[derive(Clone, Copy, Debug, PartialEq, Eq, Structural)]
pub enum SessionLookup {
    Found(u128),
    Missing,
    StoreFailure,
}

/// What logout does under each strategy: reissue the cookie already
/// expired (stateless — best effort, the token itself stays valid until
/// its embedded expiry), or hard-delete the session record (stateful —
/// immediate revocation).
#[derive(Clone, Copy, Debug, PartialEq, Eq, Structural)]
pub enum LogoutAction {
    ClearCookie,
    DeleteSession(u128),
}

/// The middleware's decision on a stateless proof: no proof, or a token
/// that fails verification (tampered, foreign-keyed or expired), is
/// rejected as unauthorized; a valid token sends its subject to account
/// resolution. An expired proof is treated as absent identity, not as a
/// distinct error.
pub open spec fn spec_auth_token_step(pf: Option<Token>, secret: u64, now: u64) -> AuthStep {
    match pf {
        None => AuthStep::Reject(AuthDenial::Unauthorized),
        Some(t) => if spec_token_valid(t, secret, now) {
            AuthStep::LookupAccount(t.claims.sub)
        } else {
            AuthStep::Reject(AuthDenial::Unauthorized)
        },
    }
}

/// Decides a stateless-proof request up to account resolution.
pub fn auth_token_step(pf: Option<&Token>, secret: u64, now: u64) -> (r: AuthStep)
    ensures
        r == spec_auth_token_step(
            match pf {
                Some(t) => Some(*t),
                None => None,
            },
            secret,
            now,
        ),
{
    match pf {
        None => AuthStep::Reject(AuthDenial::Unauthorized),
        Some(t) => match verify_token(t, secret, now) {
            Some(sub) => AuthStep::LookupAccount(sub),
            None => AuthStep::Reject(AuthDenial::Unauthorized),
        },
    }
}

/// The middleware's decision on a stateful proof, given the session
/// store's answer: a miss is rejected as unauthorized, a store fault as a
/// server error, and a hit sends the stored account identifier to account
/// resolution.
pub open spec fn spec_auth_session_step(lookup: SessionLookup) -> AuthStep {
    match lookup {
        SessionLookup::Found(id) => AuthStep::LookupAccount(id),
        SessionLookup::Missing => AuthStep::Reject(AuthDenial::Unauthorized),
        SessionLookup::StoreFailure => AuthStep::Reject(AuthDenial::StoreFailure),
    }
}

/// Decides a stateful-proof request up to account resolution.
pub fn auth_session_step(lookup: SessionLookup) -> (r: AuthStep)
    ensures
        r == spec_auth_session_step(lookup),
{
    match lookup {
        SessionLookup::Found(id) => AuthStep::LookupAccount(id),
        SessionLookup::Missing => AuthStep::Reject(AuthDenial::Unauthorized),
        SessionLookup::StoreFailure => AuthStep::Reject(AuthDenial::StoreFailure),
    }
}

/// The middleware's final decision, given what the credential store
/// resolved the subject to: a resolvable identity whose account no longer
/// exists is rejected as unauthorized — the account must currently exist;
/// otherwise that account is attached to the request.
pub open spec fn spec_auth_finish(account: Option<User>) -> Result<User, AuthDenial> {
    match account {
        None => Err(AuthDenial::Unauthorized),
        Some(u) => Ok(u),
    }
}

/// Finishes the middleware's decision after account resolution.
pub fn auth_finish(account: Option<User>) -> (r: Result<User, AuthDenial>)
    ensures
        r == spec_auth_finish(account),
{
    match account {
        None => Err(AuthDenial::Unauthorized),
        Some(u) => Ok(u),
    }
}

/// Renders a denial as the error the client sees: 401 for missing or
/// invalid identity, 500 for a session-store fault.
pub fn denial_error(d: AuthDenial) -> (r: ApiError)
    ensures
        d is Unauthorized ==> (r matches ApiError::Unauthorized(m) && m@ == "user unauthorized"@),
        d is StoreFailure ==> r is InternalServerError,
{
    match d {
        AuthDenial::Unauthorized => ApiError::Unauthorized("user unauthorized".to_string()),
        AuthDenial::StoreFailure => ApiError::InternalServerError,
    }
}

/// Issues the identity proof for a verified account under the active
/// strategy. For the stateless strategy the proof is the signed token
/// itself; for the stateful one it is the fresh opaque key the caller
/// generated, under which the caller must store the account identifier
/// with the configured sliding expiry.
pub fn issue_proof(config: &IssuerConfig, account_id: u128, now: u64, fresh_key: u128) -> (r:
    IdentityProof)
    requires
        *config matches IssuerConfig::Stateless { secret, lifetime_secs } ==> now + lifetime_secs
            <= u64::MAX,
    ensures
        (*config matches IssuerConfig::Stateless { secret, lifetime_secs } ==> r
            == IdentityProof::Token(spec_issue_token(secret, account_id, now, lifetime_secs))),
        (*config matches IssuerConfig::Stateful { .. } ==> r == IdentityProof::SessionKey(
            fresh_key,
        )),
{
    match config {
        IssuerConfig::Stateless { secret, lifetime_secs } => IdentityProof::Token(
            issue_token(*secret, account_id, now, *lifetime_secs),
        ),
        IssuerConfig::Stateful { .. } => IdentityProof::SessionKey(fresh_key),
    }
}

/// The time to live that an authorized access must re-set on the session
/// record under the stateful strategy — its expiry slides, extended on
/// each access — and nothing under the stateless one, whose tokens carry a
/// fixed expiry that no access extends.
pub fn refresh_ttl(config: &IssuerConfig) -> (r: Option<u64>)
    ensures
        (*config matches IssuerConfig::Stateful { ttl_secs } ==> r == Some(ttl_secs)),
        (*config matches IssuerConfig::Stateless { .. } ==> r is None),
{
    match config {
        IssuerConfig::Stateful { ttl_secs } => Some(*ttl_secs),
        IssuerConfig::Stateless { .. } => None,
    }
}

/// What logout must do with the proof the client presented: clear the
/// cookie under the stateless strategy (no server-side revocation exists),
/// delete the session record under the stateful one.
pub fn logout_action(pf: &IdentityProof) -> (r: LogoutAction)
    ensures
        *pf matches IdentityProof::Token(_) ==> r is ClearCookie,
        *pf matches IdentityProof::SessionKey(k) ==> r == LogoutAction::DeleteSession(k),
{
    match pf {
        IdentityProof::Token(_) => LogoutAction::ClearCookie,
        IdentityProof::SessionKey(k) => LogoutAction::DeleteSession(*k),
    }
}

/// The whole stateless-strategy middleware over the credential store: the
/// request's proof examined, its subject resolved, and the account
/// attached or the request rejected. A missing, tampered or expired token
/// and a subject whose account no longer exists are all turned away as
/// unauthorized; a valid token for an existing account yields exactly that
/// account.
pub fn authorize_token_request(
    accounts: &crate::accounts::AccountStore,
    pf: Option<&Token>,
    secret: u64,
    now: u64,
) -> (r: Result<User, AuthDenial>)
    ensures
        ({
            let step = spec_auth_token_step(
                match pf {
                    Some(t) => Some(*t),
                    None => None,
                },
                secret,
                now,
            );
            match step {
                AuthStep::Reject(d) => r == Result::<User, AuthDenial>::Err(d),
                AuthStep::LookupAccount(sub) => ({
                    let i = crate::accounts::spec_user_by_id(accounts.users@, sub);
                    &&& i == -1 ==> r == Result::<User, AuthDenial>::Err(AuthDenial::Unauthorized)
                    &&& i >= 0 ==> (r matches Ok(u) && u == accounts.users@[i])
                }),
            }
        }),
{
    let subject = match auth_token_step(pf, secret, now) {
        AuthStep::LookupAccount(sub) => sub,
        AuthStep::Reject(d) => {
            return Err(d);
        },
    };
    match accounts.find_account_by_id(subject) {
        Some(u) => Ok(clone_user(u)),
        None => Err(AuthDenial::Unauthorized),
    }
}

/// Copies an account row field by field.
fn clone_user(u: &User) -> (r: User)
    ensures
        r == *u,
{
    User {
        id: u.id,
        username: u.username.clone(),
        email: u.email.clone(),
        password: u.password.clone(),
        role: u.role.clone(),
        created_at: u.created_at,
        updated_at: u.updated_at,
    }
}

/// The middleware's rejections, stated end to end: a request with no proof is
/// rejected as unauthorized; one whose token has reached its expiry is
/// rejected as unauthorized however the rest of the token reads; and one
/// whose valid proof resolves to no existing account — deleted after
/// issuance — is rejected as unauthorized at the resolution step.
pub proof fn lemma_middleware_rejections(secret: u64, now: u64, t: Token)
    ensures
        spec_auth_token_step(None, secret, now) == AuthStep::Reject(AuthDenial::Unauthorized),
        now >= t.claims.exp ==> spec_auth_token_step(Some(t), secret, now) == AuthStep::Reject(
            AuthDenial::Unauthorized,
        ),
        spec_auth_finish(None) == Result::<User, AuthDenial>::Err(AuthDenial::Unauthorized),
{
}

} // verus!
