use rcms::auth::authenticate;
use rcms::auth::compare;
use rcms::auth::create_user;
use rcms::auth::encrypt_password;
use rcms::auth::login;
use rcms::auth::update_user;
use rcms::auth::Claims;
use rcms::auth::CryptoError;
use rcms::auth::LoginOutcome;
use rcms::auth::UpdateUserOutcome;
use rcms::errors::CustomHttpError;
use rcms::middleware::Authorization;
use rcms::middleware::HttpMethod;
use rcms::store::Store;
use rcms::user_models::MutUser;
use rcms::user_models::User;

fn user_payload(name: &str, password: &str) -> MutUser {
    MutUser {
        uuid: None,
        username: name.to_string(),
        password: Some(password.to_string()),
        token: None,
    }
}

fn seeded_user(db: &mut Store, name: &str, password: &str) {
    let payload = user_payload(name, password);
    create_user(&payload, db).unwrap();
}

#[test]
fn password_hash_round_trip_through_login() {
    let mut db = Store::new();
    seeded_user(&mut db, "alice", "correct horse");
    let outcome = login(
        &user_payload("alice", "correct horse"),
        "token-1".to_string(),
        &mut db,
    )
    .unwrap();
    assert_eq!(outcome, LoginOutcome::LoggedIn);
    let stored = User::read_one("alice".to_string(), &db).unwrap();
    assert_eq!(stored.token, Some("token-1".to_string()));
}

#[test]
fn login_with_wrong_password_is_denied() {
    let mut db = Store::new();
    seeded_user(&mut db, "alice", "correct horse");
    let outcome = login(
        &user_payload("alice", "battery staple"),
        "token-2".to_string(),
        &mut db,
    )
    .unwrap();
    assert_eq!(outcome, LoginOutcome::Denied);
    let stored = User::read_one("alice".to_string(), &db).unwrap();
    assert_eq!(stored.token, None);
}

#[test]
fn login_of_unknown_user_is_not_found() {
    let mut db = Store::new();
    let r = login(&user_payload("ghost", "pw"), "t".to_string(), &mut db);
    assert!(matches!(r, Err(CustomHttpError::NotFound)));
}

#[test]
fn default_root_login_accepted_once_then_forbidden() {
    let mut db = Store::new();
    // a root row with an empty password, as a fresh installation has.
    db.users.push(User {
        uuid: "root-uuid".to_string(),
        username: "root".to_string(),
        password: "".to_string(),
        token: None,
    });
    let first = login(&user_payload("root", ""), "root-token".to_string(), &mut db).unwrap();
    assert_eq!(first, LoginOutcome::Accepted);
    let second = login(&user_payload("root", ""), "other".to_string(), &mut db).unwrap();
    assert_eq!(second, LoginOutcome::Forbidden);
    let stored = User::read_one("root".to_string(), &db).unwrap();
    assert_eq!(stored.token, Some("root-token".to_string()));
}

#[test]
fn compare_reports_each_failure() {
    let mut db = Store::new();
    let claims = Claims { exp: 10, sub: "alice".to_string() };
    let token = "tok".to_string();
    assert!(matches!(compare(&claims, &token, &db), Err(CryptoError::NoUser)));

    seeded_user(&mut db, "alice", "pw");
    assert!(matches!(compare(&claims, &token, &db), Err(CryptoError::NotLoggedIn)));

    login(&user_payload("alice", "pw"), "tok".to_string(), &mut db).unwrap();
    assert!(compare(&claims, &token, &db).is_ok());
    let wrong = "other".to_string();
    assert!(matches!(
        compare(&claims, &wrong, &db),
        Err(CryptoError::FailedComparison)
    ));
}

#[test]
fn stale_token_on_user_update_is_unauthorized_and_changes_nothing() {
    let mut db = Store::new();
    seeded_user(&mut db, "alice", "pw");
    login(&user_payload("alice", "pw"), "fresh-token".to_string(), &mut db).unwrap();
    let before = User::read_one("alice".to_string(), &db).unwrap();

    // the request carries a stale token: authentication turns it away.
    let claims = Claims { exp: 10, sub: "alice".to_string() };
    let stale = "stale-token".to_string();
    let auth = authenticate(Some(claims), &stale, &db);
    assert!(matches!(auth, Err(CustomHttpError::Unauthorized)));

    // and a caller whose claims name someone else cannot update the record.
    let other_claims = Claims { exp: 10, sub: "mallory".to_string() };
    let r = update_user(
        &"alice".to_string(),
        &user_payload("alice", "new pw"),
        &other_claims,
        "t2".to_string(),
        &mut db,
    )
    .unwrap();
    assert_eq!(r, UpdateUserOutcome::Unauthorized);

    let after = User::read_one("alice".to_string(), &db).unwrap();
    assert_eq!(after.username, before.username);
    assert_eq!(after.password, before.password);
    assert_eq!(after.token, before.token);
}

#[test]
fn update_user_rehashes_and_stores_new_token() {
    let mut db = Store::new();
    seeded_user(&mut db, "alice", "pw");
    let claims = Claims { exp: 10, sub: "alice".to_string() };
    let r = update_user(
        &"alice".to_string(),
        &user_payload("alice", "new pw"),
        &claims,
        "renewed".to_string(),
        &mut db,
    )
    .unwrap();
    assert_eq!(r, UpdateUserOutcome::Updated(1));
    let stored = User::read_one("alice".to_string(), &db).unwrap();
    assert_eq!(stored.token, Some("renewed".to_string()));
    // the new password verifies, the old one no longer does.
    assert_eq!(
        login(&user_payload("alice", "new pw"), "t3".to_string(), &mut db).unwrap(),
        LoginOutcome::LoggedIn
    );
    assert_eq!(
        login(&user_payload("alice", "pw"), "t4".to_string(), &mut db).unwrap(),
        LoginOutcome::Denied
    );
}

#[test]
fn create_user_rejects_taken_name() {
    let mut db = Store::new();
    seeded_user(&mut db, "alice", "pw");
    let r = create_user(&user_payload("alice", "pw2"), &mut db);
    assert!(matches!(r, Err(CustomHttpError::Unknown)));
    assert_eq!(db.users.len(), 1);
}

#[test]
fn stored_password_is_a_hash_not_the_password() {
    let mut db = Store::new();
    seeded_user(&mut db, "alice", "pw");
    let stored = User::read_one("alice".to_string(), &db).unwrap();
    assert_ne!(stored.password, "pw");
    // the hash is a PHC string naming its algorithm.
    assert!(stored.password.starts_with("$argon2"));
}

#[test]
fn encrypt_password_produces_distinct_salted_hashes() {
    let password = "same password".to_string();
    let h1 = encrypt_password(&password).unwrap();
    let h2 = encrypt_password(&password).unwrap();
    assert_ne!(h1, h2);
}

#[test]
fn claims_expiry_is_ten_days_out() {
    let c = Claims::with_expiry("alice".to_string(), 1000);
    assert_eq!(c.sub, "alice");
    assert_eq!(c.exp, 1000 + 864000);
    let saturated = Claims::with_expiry("alice".to_string(), u64::MAX - 5);
    assert_eq!(saturated.exp, u64::MAX);
}

#[test]
fn fresh_identifiers_are_hyphenated_and_distinct() {
    let a = rcms::page_models::MutPage {
        uuid: None,
        page_name: "a".to_string(),
        page_url: "/a".to_string(),
        page_title: "a".to_string(),
    };
    let first = a.with_new_uuid().uuid.unwrap();
    let second = a.with_new_uuid().uuid.unwrap();
    assert_eq!(first.len(), 36);
    assert_eq!(second.len(), 36);
    assert_ne!(first, second);
    assert_eq!(first.matches('-').count(), 4);
}

#[test]
fn middleware_lets_reads_through_and_guards_writes() {
    let mut db = Store::new();
    seeded_user(&mut db, "alice", "pw");
    login(
        &user_payload("alice", "pw"),
        "session-token".to_string(),
        &mut db,
    )
    .unwrap();
    let token = "session-token".to_string();
    let claims = || Some(Claims { exp: 10, sub: "alice".to_string() });

    assert!(Authorization::authenticate(&HttpMethod::Get, None, &token, &db));
    assert!(!Authorization::authenticate(&HttpMethod::Put, None, &token, &db));
    assert!(Authorization::authenticate(&HttpMethod::Put, claims(), &token, &db));
    let wrong = "bad".to_string();
    assert!(!Authorization::authenticate(&HttpMethod::Delete, claims(), &wrong, &db));
}

#[test]
fn crypto_error_messages() {
    assert_eq!(
        CryptoError::FailedComparison.message(),
        "User has failed their token comparison"
    );
    assert_eq!(CryptoError::NoAuthHeader.message(), "No auth header present.");
    assert_eq!(
        CustomHttpError::from(CryptoError::NotLoggedIn),
        CustomHttpError::Unauthorized
    );
}

#[test]
fn logout_clears_the_stored_token() {
    let mut db = Store::new();
    seeded_user(&mut db, "alice", "pw");
    login(&user_payload("alice", "pw"), "session".to_string(), &mut db).unwrap();
    assert!(User::read_one("alice".to_string(), &db).unwrap().token.is_some());

    assert_eq!(rcms::auth::logout(&"alice".to_string(), &mut db).unwrap(), 1);
    let stored = User::read_one("alice".to_string(), &db).unwrap();
    assert_eq!(stored.token, None);

    // the old session token no longer compares equal.
    let claims = Claims { exp: 10, sub: "alice".to_string() };
    let old_token = "session".to_string();
    assert!(matches!(
        compare(&claims, &old_token, &db),
        Err(CryptoError::NotLoggedIn)
    ));

    // logging out an unknown name clears nothing and is not an error.
    assert_eq!(rcms::auth::logout(&"ghost".to_string(), &mut db).unwrap(), 0);
}

#[test]
fn login_against_an_unparseable_stored_hash_is_an_internal_error() {
    let mut db = Store::new();
    // a row whose stored password is not a PHC hash string at all.
    let broken = MutUser {
        uuid: Some("b-1".to_string()),
        username: "broken".to_string(),
        password: Some("not a hash".to_string()),
        token: None,
    };
    User::create(&broken, &mut db).unwrap();
    let r = login(&user_payload("broken", "whatever"), "t".to_string(), &mut db);
    assert!(matches!(r, Err(CustomHttpError::Unknown)));
    // the record is untouched.
    let stored = User::read_one("broken".to_string(), &db).unwrap();
    assert_eq!(stored.password, "not a hash");
    assert_eq!(stored.token, None);
}
