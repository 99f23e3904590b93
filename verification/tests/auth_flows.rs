use incident_core::auth::{
    apply_reset_token, authenticate, forgot_password, generate_token, login, reset_password,
    ForgotPasswordRequest, LoginRequest, ResetPasswordRequest,
};
use incident_core::entities::{AccountStatus, Role, User};
use incident_core::error::AppError;
use incident_core::external::now_seconds;
use incident_core::store::Store;
use incident_core::users::reset_admin_password;

const SECRET: &str = "SECRET-REDACTED";

fn account(id: i32, email: &str, password: Option<&str>, status: AccountStatus) -> User {
    User {
        id,
        name: format!("user{}", id),
        email: String::from(email),
        role: Role::Client,
        status,
        password_hash: password.map(|p| bcrypt::hash(p, bcrypt::DEFAULT_COST).unwrap()),
        reset_token: None,
        reset_token_expiry: None,
        company_id: None,
        created_at: 0,
        updated_at: 0,
    }
}

fn store_with(users: Vec<User>) -> Store {
    let mut s = Store::empty();
    let top = users.iter().map(|u| u.id).max().unwrap_or(0);
    s.next_user_id = top + 1;
    s.users = users;
    s
}

fn login_request(email: &str, password: &str) -> LoginRequest {
    LoginRequest { email: String::from(email), password: String::from(password) }
}

fn reset_request(token: &str, new_password: &str) -> ResetPasswordRequest {
    ResetPasswordRequest {
        token: String::from(token),
        new_password: String::from(new_password),
    }
}

#[test]
fn login_succeeds_with_correct_password() {
    let s = store_with(vec![account(1, "a@x.com", Some("hunter2"), AccountStatus::Active)]);
    let resp = login(&s, &login_request("a@x.com", "hunter2"), 1_000, SECRET).unwrap();
    assert_eq!(resp.id, 1);
    assert_eq!(resp.email, "a@x.com");
    assert!(!resp.token.is_empty());
}

#[test]
fn login_rejects_wrong_password() {
    let s = store_with(vec![account(1, "a@x.com", Some("hunter2"), AccountStatus::Active)]);
    let r = login(&s, &login_request("a@x.com", "wrong"), 1_000, SECRET);
    assert_eq!(r.unwrap_err(), AppError::Unauthenticated);
}

#[test]
fn login_rejects_unknown_email_and_pending_password() {
    let s = store_with(vec![account(1, "a@x.com", None, AccountStatus::Active)]);
    assert_eq!(
        login(&s, &login_request("b@x.com", "hunter2"), 1_000, SECRET).unwrap_err(),
        AppError::Unauthenticated
    );
    assert_eq!(
        login(&s, &login_request("a@x.com", "hunter2"), 1_000, SECRET).unwrap_err(),
        AppError::Unauthenticated
    );
}

#[test]
fn login_reports_unparseable_stored_hash_as_internal() {
    let mut u = account(1, "a@x.com", None, AccountStatus::Active);
    u.password_hash = Some(String::from("not a bcrypt hash"));
    let s = store_with(vec![u]);
    assert_eq!(
        login(&s, &login_request("a@x.com", "hunter2"), 1_000, SECRET).unwrap_err(),
        AppError::InternalError
    );
}

#[test]
fn issued_token_authenticates_the_account() {
    let s = store_with(vec![account(7, "a@x.com", Some("pw"), AccountStatus::Active)]);
    let token = generate_token(7, now_seconds(), SECRET);
    let au = authenticate(&s, &token, SECRET).unwrap();
    assert_eq!(au.user.id, 7);
    assert_eq!(au.user.email, "a@x.com");
}

#[test]
fn garbage_token_is_unauthenticated() {
    let s = store_with(vec![account(7, "a@x.com", Some("pw"), AccountStatus::Active)]);
    assert_eq!(authenticate(&s, "no.such.token", SECRET).unwrap_err(), AppError::Unauthenticated);
}

#[test]
fn token_signed_with_another_secret_is_rejected() {
    let s = store_with(vec![account(7, "a@x.com", Some("pw"), AccountStatus::Active)]);
    let token = generate_token(7, now_seconds(), "other-secret");
    assert_eq!(authenticate(&s, &token, SECRET).unwrap_err(), AppError::Unauthenticated);
}

#[test]
fn valid_token_for_deactivated_account_is_forbidden() {
    let s = store_with(vec![account(7, "a@x.com", Some("pw"), AccountStatus::Inactive)]);
    let token = generate_token(7, now_seconds(), SECRET);
    assert_eq!(authenticate(&s, &token, SECRET).unwrap_err(), AppError::Forbidden);
}

#[test]
fn token_for_unknown_subject_is_unauthenticated() {
    let s = store_with(vec![account(7, "a@x.com", Some("pw"), AccountStatus::Active)]);
    let token = generate_token(99, now_seconds(), SECRET);
    assert_eq!(authenticate(&s, &token, SECRET).unwrap_err(), AppError::Unauthenticated);
}

#[test]
fn forgot_password_installs_a_fresh_token() {
    let mut s = store_with(vec![account(1, "a@x.com", Some("pw"), AccountStatus::Active)]);
    let (token, expiry) =
        forgot_password(&mut s, &ForgotPasswordRequest { email: String::from("a@x.com") })
            .unwrap();
    assert_eq!(token.len(), 36);
    assert_eq!(s.users[0].reset_token.as_deref(), Some(token.as_str()));
    assert_eq!(s.users[0].reset_token_expiry, Some(expiry));
}

#[test]
fn forgot_password_for_unknown_email_is_not_found() {
    let mut s = store_with(vec![account(1, "a@x.com", Some("pw"), AccountStatus::Active)]);
    assert_eq!(
        forgot_password(&mut s, &ForgotPasswordRequest { email: String::from("b@x.com") })
            .unwrap_err(),
        AppError::NotFound
    );
}

#[test]
fn reset_token_is_single_use() {
    let mut s = store_with(vec![account(1, "a@x.com", Some("pw"), AccountStatus::Active)]);
    let issued = 1_000_000;
    apply_reset_token(&mut s, &String::from("a@x.com"), String::from("tok-123"), issued).unwrap();
    let uid = reset_password(&mut s, &reset_request("tok-123", "newpass"), issued + 60).unwrap();
    assert_eq!(uid, 1);
    assert_eq!(s.users[0].reset_token, None);
    assert_eq!(s.users[0].reset_token_expiry, None);
    // the new password is live
    let resp = login(&s, &login_request("a@x.com", "newpass"), issued, SECRET).unwrap();
    assert_eq!(resp.id, 1);
    // reusing the consumed token fails
    assert_eq!(
        reset_password(&mut s, &reset_request("tok-123", "again"), issued + 61).unwrap_err(),
        AppError::InvalidOrExpiredToken
    );
}

#[test]
fn reset_token_expires_after_one_hour() {
    let issued = 1_000_000;
    // one second past the hour: refused
    let mut s = store_with(vec![account(1, "a@x.com", Some("pw"), AccountStatus::Active)]);
    apply_reset_token(&mut s, &String::from("a@x.com"), String::from("tok-xyz"), issued).unwrap();
    assert_eq!(
        reset_password(&mut s, &reset_request("tok-xyz", "np"), issued + 3601).unwrap_err(),
        AppError::InvalidOrExpiredToken
    );
    // at 59 minutes: accepted
    let mut s2 = store_with(vec![account(1, "a@x.com", Some("pw"), AccountStatus::Active)]);
    apply_reset_token(&mut s2, &String::from("a@x.com"), String::from("tok-xyz"), issued).unwrap();
    assert_eq!(reset_password(&mut s2, &reset_request("tok-xyz", "np"), issued + 3540).unwrap(), 1);
    // exactly at the hour: still accepted
    let mut s3 = store_with(vec![account(1, "a@x.com", Some("pw"), AccountStatus::Active)]);
    apply_reset_token(&mut s3, &String::from("a@x.com"), String::from("tok-xyz"), issued).unwrap();
    assert_eq!(reset_password(&mut s3, &reset_request("tok-xyz", "np"), issued + 3600).unwrap(), 1);
}

#[test]
fn unknown_reset_token_is_invalid() {
    let mut s = store_with(vec![account(1, "a@x.com", Some("pw"), AccountStatus::Active)]);
    assert_eq!(
        reset_password(&mut s, &reset_request("never-issued", "np"), 5).unwrap_err(),
        AppError::InvalidOrExpiredToken
    );
}

#[test]
fn admin_password_reset_updates_or_creates_the_account() {
    let mut s = store_with(vec![account(1, "admin@x.com", Some("old"), AccountStatus::Active)]);
    let hash = bcrypt::hash("fresh-pass", bcrypt::DEFAULT_COST).unwrap();
    let created = reset_admin_password(&mut s, String::from("admin@x.com"), hash, 9).unwrap();
    assert!(!created);
    assert_eq!(
        login(&s, &login_request("admin@x.com", "fresh-pass"), 10, SECRET).unwrap().id,
        1
    );
    let hash2 = bcrypt::hash("boot-pass", bcrypt::DEFAULT_COST).unwrap();
    let created2 = reset_admin_password(&mut s, String::from("new@x.com"), hash2, 9).unwrap();
    assert!(created2);
    assert_eq!(s.users.len(), 2);
    assert_eq!(s.users[1].role, Role::Superadmin);
}
