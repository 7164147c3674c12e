use auth_core::accounts::AccountStore;
use auth_core::errors::ApiError;
use auth_core::filters::filter_user;
use auth_core::ledger::ReactionLedger;
use auth_core::posts::PostStore;
use auth_core::response::{ApiError as HandlerError, GeneralResponse, Status};
use auth_core::schema::{CreatePostSchema, LoginUserSchema, RegisterUserSchema};

fn register_body(username: &str, email: &str, password: &str) -> RegisterUserSchema {
    RegisterUserSchema {
        username: username.to_string(),
        email: email.to_string(),
        password: password.to_string(),
    }
}

fn login_body(username: &str, password: &str) -> LoginUserSchema {
    LoginUserSchema { username: username.to_string(), password: password.to_string() }
}

#[test]
fn react_twice_same_vote_is_idempotent() {
    let mut ledger = ReactionLedger::new();
    let first = ledger.react(1, 100, true);
    assert_eq!((first.like_count, first.dislike_count), (1, 0));
    assert_eq!(ledger.rows.len(), 1);
    let second = ledger.react(1, 100, true);
    assert_eq!((second.like_count, second.dislike_count), (1, 0));
    assert_eq!(ledger.rows.len(), 1);
}

#[test]
fn react_flip_moves_one_count() {
    let mut ledger = ReactionLedger::new();
    let first = ledger.react(1, 100, true);
    assert_eq!((first.like_count, first.dislike_count), (1, 0));
    let second = ledger.react(1, 100, false);
    assert_eq!((second.like_count, second.dislike_count), (0, 1));
    assert_eq!(ledger.rows.len(), 1);
}

#[test]
fn reactions_from_two_accounts_both_persist() {
    let mut ledger = ReactionLedger::new();
    ledger.react(1, 100, true);
    let counts = ledger.react(2, 100, false);
    assert_eq!(counts.like_count + counts.dislike_count, 2);
    assert_eq!((counts.like_count, counts.dislike_count), (1, 1));
    assert_eq!(ledger.rows.len(), 2);
}

#[test]
fn reactions_are_per_post() {
    let mut ledger = ReactionLedger::new();
    ledger.react(1, 100, true);
    let other = ledger.react(1, 200, false);
    assert_eq!((other.like_count, other.dislike_count), (0, 1));
    assert_eq!(other.post_id, 200);
    let (likes, dislikes) = ledger.counts_for(100);
    assert_eq!((likes, dislikes), (1, 0));
}

#[test]
fn counts_default_to_zero() {
    let ledger = ReactionLedger::new();
    assert_eq!(ledger.counts_for(100), (0, 0));
}

#[test]
fn register_rejects_duplicates() {
    let mut store = AccountStore::new();
    store.register_user(&register_body("ada", "ada@x.com", "p@ss"), 10).expect("registration");
    let again = store.register_user(&register_body("ada", "other@x.com", "p@ss"), 11);
    match again {
        Err(ApiError::BadRequest(m)) => assert_eq!(m, "username is taken"),
        _ => panic!("duplicate username accepted"),
    }
    let mail = store.register_user(&register_body("grace", "ada@x.com", "p@ss"), 12);
    match mail {
        Err(ApiError::BadRequest(m)) => assert_eq!(m, "Email is taken"),
        _ => panic!("duplicate email accepted"),
    }
    assert_eq!(store.users.len(), 1);
}

#[test]
fn email_is_stored_lowercased() {
    let mut store = AccountStore::new();
    store.register_user(&register_body("ada", "Ada@X.com", "p@ss"), 10).expect("registration");
    let user = store.find_account_by_username(&"ada".to_string()).expect("account");
    assert_eq!(user.email, "ada@x.com");
    let again = store.register_user(&register_body("grace", "ADA@x.COM", "p@ss"), 11);
    match again {
        Err(ApiError::BadRequest(m)) => assert_eq!(m, "Email is taken"),
        _ => panic!("another spelling of a taken email was accepted"),
    }
    assert_eq!(store.users.len(), 1);
}

#[test]
fn login_flows() {
    let mut store = AccountStore::new();
    let id = store.register_user(&register_body("ada", "ada@x.com", "p@ss"), 10).expect("registration");
    match store.login_user(&login_body("nobody", "p@ss")) {
        Err(ApiError::BadRequest(m)) => assert_eq!(m, "user does not exist"),
        _ => panic!("unknown user logged in"),
    }
    match store.login_user(&login_body("ada", "wrong")) {
        Err(ApiError::BadRequest(m)) => assert_eq!(m, "incorrect password"),
        _ => panic!("wrong password accepted"),
    }
    assert_eq!(store.login_user(&login_body("ada", "p@ss")).expect("login"), id);
}

#[test]
fn stored_hash_is_not_the_password() {
    let mut store = AccountStore::new();
    store.register_user(&register_body("ada", "ada@x.com", "p@ss"), 10).expect("registration");
    let user = store.find_account_by_username(&"ada".to_string()).expect("account");
    assert_ne!(user.password, "p@ss");
    assert!(user.password.starts_with("$argon2"));
    assert_eq!(user.role, "user");
    assert_eq!(user.email, "ada@x.com");
}

#[test]
fn profile_lookup_flows() {
    let mut store = AccountStore::new();
    store.register_user(&register_body("ada", "ada@x.com", "p@ss"), 10).expect("registration");
    match store.get_profile(&"nobody".to_string()) {
        Err(ApiError::NotFound(m)) => assert_eq!(m, "User not found"),
        _ => panic!("missing user had a profile"),
    }
    let profile = store.get_profile(&"ada".to_string()).expect("profile");
    assert_eq!(profile.photo, "default.jpg");
    assert_eq!(profile.bio.as_deref(), Some(""));
}

#[test]
fn account_finders() {
    let mut store = AccountStore::new();
    let id = store.register_user(&register_body("ada", "ada@x.com", "p@ss"), 10).expect("registration");
    assert!(store.find_account_by_id(id).is_some());
    assert!(store.find_account_by_id(id + 1000).is_none());
    let user = store.find_account_by_username(&"ada".to_string()).expect("account");
    let filtered = filter_user(user);
    assert_eq!(filtered.id, id);
    assert_eq!(filtered.username, "ada");
    assert_eq!(store.get_all_users().len(), 1);
}

#[test]
fn delete_post_authorization() {
    let mut posts = PostStore::new();
    let body = CreatePostSchema { title: "t".to_string(), content: "c".to_string() };
    let post_id = posts.create_post(1, &body, 10);
    match posts.delete_post(2, post_id) {
        Err(ApiError::BadRequest(m)) => assert_eq!(m, "not authorized to delete post"),
        _ => panic!("foreign delete accepted"),
    }
    assert_eq!(posts.posts.len(), 1);
    match posts.delete_post(1, post_id + 7) {
        Err(ApiError::NotFound(m)) => assert_eq!(m, "Post not found"),
        _ => panic!("unknown post delete was not reported as not found"),
    }
    posts.delete_post(1, post_id).expect("author delete");
    assert_eq!(posts.posts.len(), 0);
}

#[test]
fn post_listing_joins_and_counts() {
    let mut accounts = AccountStore::new();
    let ada = accounts.register_user(&register_body("ada", "ada@x.com", "p@ss"), 10).expect("registration");
    let grace = accounts
        .register_user(&register_body("grace", "grace@x.com", "p@ss"), 11)
        .expect("registration");
    let mut posts = PostStore::new();
    let first = posts.create_post(
        ada,
        &CreatePostSchema { title: "hello".to_string(), content: "world".to_string() },
        12,
    );
    let second = posts.create_post(
        grace,
        &CreatePostSchema { title: "hi".to_string(), content: "there".to_string() },
        13,
    );
    let mut ledger = ReactionLedger::new();
    ledger.react(ada, first, true);
    ledger.react(grace, first, true);
    ledger.react(ada, second, false);
    let listing = posts.get_all_posts(&accounts, &ledger);
    assert_eq!(listing.len(), 2);
    assert_eq!(listing[0].post_id, second);
    assert_eq!(listing[0].author, "grace");
    assert_eq!(listing[0].author_pfp, "default.jpg");
    assert_eq!(listing[0].like_count, Some(0));
    assert_eq!(listing[0].dislike_count, Some(1));
    assert_eq!(listing[1].post_id, first);
    assert_eq!(listing[1].author, "ada");
    assert_eq!(listing[1].title, "hello");
    assert_eq!(listing[1].like_count, Some(2));
    assert_eq!(listing[1].dislike_count, Some(0));
}

#[test]
fn post_listing_is_ordered_by_creation_time() {
    let mut accounts = AccountStore::new();
    let ada = accounts.register_user(&register_body("ada", "ada@x.com", "p@ss"), 1).expect("registration");
    let mut posts = PostStore::new();
    let body = |t: &str| CreatePostSchema { title: t.to_string(), content: "c".to_string() };
    let middle = posts.create_post(ada, &body("middle"), 20);
    let oldest = posts.create_post(ada, &body("oldest"), 10);
    let newest = posts.create_post(ada, &body("newest"), 30);
    let ledger = ReactionLedger::new();
    let listing = posts.get_all_posts(&accounts, &ledger);
    assert_eq!(listing.len(), 3);
    assert_eq!(listing[0].post_id, newest);
    assert_eq!(listing[1].post_id, middle);
    assert_eq!(listing[2].post_id, oldest);
}

#[test]
fn unknown_post_delete_is_not_found() {
    let mut posts = PostStore::new();
    let err = posts.delete_post(1, 42).expect_err("unknown post");
    let (code, msg) = err.response_parts();
    assert_eq!((code, msg.as_str()), (404, "Post not found"));
}

#[test]
fn error_taxonomy_maps_to_http() {
    let (code, msg) = ApiError::NotFound("missing".to_string()).response_parts();
    assert_eq!((code, msg.as_str()), (404, "missing"));
    let (code, _) = ApiError::BadRequest("bad".to_string()).response_parts();
    assert_eq!(code, 400);
    let (code, msg) = ApiError::Unauthorized("who".to_string()).response_parts();
    assert_eq!((code, msg.as_str()), (401, "who"));
    let (code, msg) = ApiError::InternalServerError.response_parts();
    assert_eq!((code, msg.as_str()), (500, "Internal server error"));
}

#[test]
fn handler_error_envelope() {
    let (code, msg, status) = HandlerError::Fail("no".to_string()).response_parts();
    assert_eq!((code, msg.as_str()), (400, "no"));
    assert!(matches!(status, Status::Fail));
    let (code, msg, status) = HandlerError::InternalServerError.response_parts();
    assert_eq!((code, msg.as_str()), (500, "Internal server error"));
    assert!(matches!(status, Status::Error));
    let (code, msg, status) = HandlerError::JsonRejection("oops".to_string()).response_parts();
    assert_eq!((code, msg.as_str()), (500, "invalid json"));
    assert!(matches!(status, Status::Error));
}

#[test]
fn envelope_builder() {
    let r = GeneralResponse::new(Status::Success, "user registerd", None);
    assert!(matches!(r.status, Status::Success));
    assert_eq!(r.message, "user registerd");
    assert!(r.data.is_none());
    let with_data = GeneralResponse::new(
        Status::Success,
        "ok",
        Some(serde_json::Value::Bool(true)),
    );
    assert!(with_data.data.is_some());
}
