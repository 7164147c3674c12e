use auth_core::accounts::AccountStore;
use auth_core::errors::ApiError;
use auth_core::ledger::ReactionLedger;
use auth_core::response::ApiError as HandlerError;
use auth_core::session_auth::{
    auth_finish, auth_token_step, authorize_token_request, issue_proof, AuthStep, IdentityProof,
    IssuerConfig,
};

#[test]
fn register_login_authenticate_react() {
    let mut accounts = AccountStore::new();
    let mut ledger = ReactionLedger::new();
    let config = IssuerConfig::Stateless { secret: 0x5eed, lifetime_secs: 600 };
    let now: u64 = 1_700_000_000;

    // register(username="ada", email="ada@x.com", password="p@ss") -> success
    let body = auth_core::schema::RegisterUserSchema {
        username: "ada".to_string(),
        email: "ada@x.com".to_string(),
        password: "p@ss".to_string(),
    };
    let ada = accounts.register_user(&body, now as i64).expect("registration");

    // login(username="ada", password="wrong") -> client-caused failure (400)
    let wrong = auth_core::schema::LoginUserSchema {
        username: "ada".to_string(),
        password: "wrong".to_string(),
    };
    match accounts.login_user(&wrong) {
        Err(e @ ApiError::BadRequest(_)) => {
            let (code, msg) = e.response_parts();
            assert_eq!((code, msg.as_str()), (400, "incorrect password"));
        }
        _ => panic!("wrong password accepted"),
    }

    // login(username="ada", password="p@ss") -> valid proof
    let right = auth_core::schema::LoginUserSchema {
        username: "ada".to_string(),
        password: "p@ss".to_string(),
    };
    let subject = accounts.login_user(&right).expect("login");
    assert_eq!(subject, ada);
    let proof = issue_proof(&config, subject, now, 0);
    let token = match proof {
        IdentityProof::Token(t) => t,
        IdentityProof::SessionKey(_) => panic!("stateless deployment issued a session key"),
    };

    // "am I authenticated" with that proof -> 200
    let step = auth_token_step(Some(&token), 0x5eed, now + 10);
    let subject = match step {
        AuthStep::LookupAccount(sub) => sub,
        AuthStep::Reject(_) => panic!("valid proof rejected"),
    };
    let account = accounts.find_account_by_id(subject).cloned();
    let user = auth_finish(account).expect("authenticated");
    assert_eq!(user.id, ada);
    assert_eq!(user.username, "ada");

    // react(post=P, like=true) -> {likeCount: 1, dislikeCount: 0}
    let post: u128 = 7777;
    let counts = ledger.react(user.id, post, true);
    assert_eq!((counts.post_id, counts.like_count, counts.dislike_count), (post, 1, 0));

    // react(post=P, like=false) -> {likeCount: 0, dislikeCount: 1}
    let counts = ledger.react(user.id, post, false);
    assert_eq!((counts.post_id, counts.like_count, counts.dislike_count), (post, 0, 1));
}

#[test]
fn deleted_account_is_rejected_despite_valid_token() {
    let accounts = AccountStore::new();
    let config = IssuerConfig::Stateless { secret: 9, lifetime_secs: 600 };
    let now: u64 = 1000;
    // A token for an account that does not exist (deleted after issuance).
    let proof = issue_proof(&config, 424242, now, 0);
    let token = match proof {
        IdentityProof::Token(t) => t,
        IdentityProof::SessionKey(_) => panic!("stateless deployment issued a session key"),
    };
    let sub = match auth_token_step(Some(&token), 9, now + 1) {
        AuthStep::LookupAccount(sub) => sub,
        AuthStep::Reject(_) => panic!("valid proof rejected"),
    };
    let account = accounts.find_account_by_id(sub).cloned();
    assert!(auth_finish(account).is_err());
}

#[test]
fn handler_failure_envelope_status() {
    // The uniform envelope renders client-caused failures as `fail` and
    // server faults with the generic message.
    let (code, _, status) = HandlerError::Fail("incorrect password".to_string()).response_parts();
    assert_eq!(code, 400);
    assert!(matches!(status, auth_core::response::Status::Fail));
}

#[test]
fn authorize_token_request_end_to_end() {
    let mut accounts = AccountStore::new();
    let body = auth_core::schema::RegisterUserSchema {
        username: "ada".to_string(),
        email: "ada@x.com".to_string(),
        password: "p@ss".to_string(),
    };
    let ada = accounts.register_user(&body, 10).expect("registration");
    let secret: u64 = 0x5eed;
    let token = auth_core::token::issue_token(secret, ada, 1000, 600);
    assert!(matches!(authorize_token_request(&accounts, None, secret, 1000), Err(_)));
    assert!(matches!(authorize_token_request(&accounts, Some(&token), secret, 1601), Err(_)));
    let user = authorize_token_request(&accounts, Some(&token), secret, 1001).expect("authorized");
    assert_eq!(user.id, ada);
    let stale_token = auth_core::token::issue_token(secret, ada + 999, 1000, 600);
    assert!(matches!(authorize_token_request(&accounts, Some(&stale_token), secret, 1001), Err(_)));
}
