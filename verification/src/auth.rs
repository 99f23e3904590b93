use vstd::prelude::*;
use vstd::pervasive::VecAdditionalExecFns;

use crate::entities::{AccountStatus, Role, User};
use crate::error::AppError;
use crate::external::{
    bcrypt_hash, bcrypt_verify, fresh_token, jwt_encode, now_seconds, spec_bcrypt_check,
    spec_signed_token, verify_token,
};
use crate::store::Store;

verus! {

/// What a bearer credential carries: the subject's account id and the
/// expiry instant, in seconds.
#[derive(Clone, Copy, Debug, PartialEq, Eq, Structural)]
pub struct Claims {
    pub id: i32,
    pub exp: i64,
}

/// An authenticated request context: the active account the credential
/// resolved to.
#[derive(Debug)]
pub struct AuthUser {
    pub user: User,
}

pub struct LoginRequest {
    pub email: String,
    pub password: String,
}

#[derive(Debug)]
pub struct LoginResponse {
    pub id: i32,
    pub name: String,
    pub email: String,
    pub role: Role,
    pub company_id: Option<i32>,
    pub token: String,
}

pub struct ForgotPasswordRequest {
    pub email: String,
}

pub struct ResetPasswordRequest {
    pub token: String,
    pub new_password: String,
}

/// A bearer credential is valid for 30 days from issuance.
pub const TOKEN_TTL_SECONDS: i64 = 2592000;

/// A password-reset token is valid for 1 hour from issuance.
pub const RESET_TOKEN_TTL_SECONDS: i64 = 3600;

/// The row holds this password-reset token.
pub open spec fn spec_token_match(u: User, tok: Seq<char>) -> bool {
    u.reset_token matches Some(t) && t@ == tok
}

/// Some account holds this password-reset token.
pub open spec fn spec_some_user_holds_token(users: Seq<User>, tok: Seq<char>) -> bool {
    exists|i: int| 0 <= i < users.len() && spec_token_match(#[trigger] users[i], tok)
}

/// The account row as `forgot-password` rewrites it: the fresh token and
/// its expiry installed, everything else untouched.
pub open spec fn spec_with_reset(u: User, token: String, expiry: i64) -> User {
    User { reset_token: Some(token), reset_token_expiry: Some(expiry), ..u }
}

/// Issues a signed bearer credential for an account, good for 30 days.
pub fn generate_token(user_id: i32, now: i64, secret: &str) -> (r: String)
    requires
        now <= i64::MAX - TOKEN_TTL_SECONDS,
    ensures
        r@ == spec_signed_token(user_id as int, now + TOKEN_TTL_SECONDS, secret@),
{
    jwt_encode(user_id, now + TOKEN_TTL_SECONDS, secret)
}

/// The identity verifier's decision once the credential has been decoded:
/// an undecodable credential or an unknown subject is `Unauthenticated`; a
/// known but deactivated account is `Forbidden`; otherwise the account is
/// returned.
pub fn resolve_claims<'a>(store: &'a Store, claims: &Option<Claims>) -> (r: Result<
    &'a User,
    AppError,
>)
    requires
        store.wf(),
    ensures
        r is Ok <==> (claims matches Some(c) && store.has_user(c.id) && store.user_by_id(
            c.id,
        ).status == AccountStatus::Active),
        r matches Ok(u) ==> (claims matches Some(c) && *u == store.user_by_id(c.id)
            && store.users@.contains(*u)),
        claims is None ==> r == Err::<&'a User, AppError>(AppError::Unauthenticated),
        claims matches Some(c) && !store.has_user(c.id) ==> r == Err::<&'a User, AppError>(
            AppError::Unauthenticated,
        ),
        claims matches Some(c) && store.has_user(c.id) && store.user_by_id(c.id).status
            != AccountStatus::Active ==> r == Err::<&'a User, AppError>(AppError::Forbidden),
{
    match claims {
        None => Err(AppError::Unauthenticated),
        Some(c) => {
            match store.find_user(c.id) {
                None => Err(AppError::Unauthenticated),
                Some(u) => {
                    proof {
                        store.lemma_user_found_is_unique(*u);
                    }
                    if u.status == AccountStatus::Active {
                        Ok(u)
                    } else {
                        Err(AppError::Forbidden)
                    }
                },
            }
        },
    }
}

/// The identity verifier: decodes a presented bearer credential and
/// resolves it to an active account, or fails. Whatever the decoder
/// returns, any account handed back is an active row of the store.
pub fn authenticate(store: &Store, token: &str, secret: &str) -> (r: Result<AuthUser, AppError>)
    requires
        store.wf(),
    ensures
        r matches Ok(au) ==> store.users@.contains(au.user) && au.user.status
            == AccountStatus::Active,
        r matches Err(e) ==> (e == AppError::Unauthenticated || e == AppError::Forbidden),
{
    let claims = verify_token(token, secret);
    match resolve_claims(store, &claims) {
        Ok(u) => {
            let copy = u.clone();
            Ok(AuthUser { user: copy })
        },
        Err(e) => Err(e),
    }
}

/// Checks a login request: the account must exist, hold a password hash,
/// and bcrypt must accept the password; then a 30-day credential is
/// issued. Any failure of the three checks reads as "invalid email or
/// password"; a stored hash bcrypt cannot parse is an internal error.
pub fn login(store: &Store, payload: &LoginRequest, now: i64, secret: &str) -> (r: Result<
    LoginResponse,
    AppError,
>)
    requires
        store.wf(),
        now <= i64::MAX - TOKEN_TTL_SECONDS,
    ensures
        r is Ok <==> (store.has_user_with_email(payload.email@) && (store.user_by_email(
            payload.email@,
        ).password_hash matches Some(h) && spec_bcrypt_check(payload.password@, h@) == Some(
            true,
        ))),
        !store.has_user_with_email(payload.email@) ==> r == Err::<LoginResponse, AppError>(
            AppError::Unauthenticated,
        ),
        store.has_user_with_email(payload.email@) && store.user_by_email(
            payload.email@,
        ).password_hash is None ==> r == Err::<LoginResponse, AppError>(AppError::Unauthenticated),
        store.has_user_with_email(payload.email@) && (store.user_by_email(
            payload.email@,
        ).password_hash matches Some(h) && spec_bcrypt_check(payload.password@, h@) == Some(
            false,
        )) ==> r == Err::<LoginResponse, AppError>(AppError::Unauthenticated),
        store.has_user_with_email(payload.email@) && (store.user_by_email(
            payload.email@,
        ).password_hash matches Some(h) && spec_bcrypt_check(payload.password@, h@) is None) ==> r
            == Err::<LoginResponse, AppError>(AppError::InternalError),
        r matches Ok(resp) ==> {
            let u = store.user_by_email(payload.email@);
            &&& resp.id == u.id
            &&& resp.name == u.name
            &&& resp.email == u.email
            &&& resp.role == u.role
            &&& resp.company_id == u.company_id
            &&& resp.token@ == spec_signed_token(u.id as int, now + TOKEN_TTL_SECONDS, secret@)
        },
{
    let found = store.find_user_by_email(&payload.email);
    match found {
        None => Err(AppError::Unauthenticated),
        Some(u) => {
            proof {
                store.lemma_user_found_is_unique(*u);
            }
            match &u.password_hash {
                None => Err(AppError::Unauthenticated),
                Some(h) => {
                    match bcrypt_verify(payload.password.as_str(), h.as_str()) {
                        Err(_) => Err(AppError::InternalError),
                        Ok(false) => Err(AppError::Unauthenticated),
                        Ok(true) => {
                            let token = generate_token(u.id, now, secret);
                            Ok(
                                LoginResponse {
                                    id: u.id,
                                    name: u.name.clone(),
                                    email: u.email.clone(),
                                    role: u.role,
                                    company_id: u.company_id,
                                    token,
                                },
                            )
                        },
                    }
                },
            }
        },
    }
}

/// The index of the account row carrying this email, if any.
fn find_user_index_by_email(store: &Store, email: &String) -> (r: Option<usize>)
    ensures
        match r {
            Some(m) => m < store.users@.len() && store.users@[m as int].email@ == email@,
            None => !store.has_user_with_email(email@),
        },
{
    let n = store.users.len();
    for m in 0..n
        invariant
            n == store.users@.len(),
            forall|k: int| 0 <= k < m ==> store.users@[k].email@ != email@,
    {
        if store.users[m].email.eq(email) {
            return Some(m);
        }
    }
    None
}

/// Installs a reset token and its expiry on the account with this email.
/// The expiry is one hour past `now`.
pub fn apply_reset_token(store: &mut Store, email: &String, token: String, now: i64) -> (r: Result<
    (),
    AppError,
>)
    requires
        old(store).wf(),
        now <= i64::MAX - RESET_TOKEN_TTL_SECONDS,
    ensures
        final(store).wf(),
        r is Ok <==> old(store).has_user_with_email(email@),
        !old(store).has_user_with_email(email@) ==> r == Err::<(), AppError>(AppError::NotFound)
            && *final(store) == *old(store),
        r is Ok ==> {
            &&& final(store).users@.len() == old(store).users@.len()
            &&& forall|k: int|
                0 <= k < old(store).users@.len() ==> #[trigger] final(store).users@[k] == (if old(
                    store,
                ).users@[k].email@ == email@ {
                    spec_with_reset(
                        old(store).users@[k],
                        token,
                        (now + RESET_TOKEN_TTL_SECONDS) as i64,
                    )
                } else {
                    old(store).users@[k]
                })
            &&& *final(store) == Store { users: final(store).users, ..*old(store) }
        },
{
    let ghost s0 = *store;
    let m = match find_user_index_by_email(store, email) {
        Some(m) => m,
        None => {
            return Err(AppError::NotFound);
        },
    };
    let mut u = store.users[m].clone();
    u.reset_token = Some(token);
    u.reset_token_expiry = Some(now + RESET_TOKEN_TTL_SECONDS);
    store.users.set(m, u);
    proof {
        assert forall|k: int|
            0 <= k < store.users@.len() implies #[trigger] store.users@[k] == (if s0.users@[k].email@
            == email@ {
            spec_with_reset(s0.users@[k], token, (now + RESET_TOKEN_TTL_SECONDS) as i64)
        } else {
            s0.users@[k]
        }) by {
            if k != m {
                assert(store.users@[k] == s0.users@[k]);
                if s0.users@[k].email@ == email@ && k != m {
                    assert(s0.users@[m as int].email@ == email@);
                    assert(false);
                }
            }
        }
        assert(store.wf()) by {
            assert forall|i: int, j: int|
                0 <= i < j < store.users@.len() implies store.users@[i].id != store.users@[j].id
                && store.users@[i].email@ != store.users@[j].email@ by {
                assert(store.users@[i].id == s0.users@[i].id);
                assert(store.users@[j].id == s0.users@[j].id);
                assert(store.users@[i].email@ == s0.users@[i].email@);
                assert(store.users@[j].email@ == s0.users@[j].email@);
            }
            assert forall|i: int|
                0 <= i < store.users@.len() implies ((#[trigger] store.users@[i].company_id)
                matches Some(c) ==> store.has_company(c)) && (store.users@[i].reset_token is Some
                <==> store.users@[i].reset_token_expiry is Some) && 1 <= store.users@[i].id
                < store.next_user_id by {
                match s0.users@[i].company_id {
                    Some(c) => {
                        assert(s0.has_company(c));
                    },
                    None => {},
                }
            }
        }
        assert(store.has_user_with_email(email@)) by {
            assert(s0.users@[m as int].email@ == email@);
            assert(store.users@[m as int].email@ == email@);
        }
    }
    Ok(())
}

/// The forgot-password flow: draws a fresh random token, stamps it with a
/// one-hour expiry from the clock, and installs it on the account with
/// this email. Returns the token and its expiry so the caller can deliver
/// the token.
pub fn forgot_password(store: &mut Store, payload: &ForgotPasswordRequest) -> (r: Result<
    (String, i64),
    AppError,
>)
    requires
        old(store).wf(),
    ensures
        final(store).wf(),
        r matches Err(e) ==> *final(store) == *old(store) && (e == AppError::NotFound || e
            == AppError::InternalError),
        r == Err::<(String, i64), AppError>(AppError::NotFound) ==> !old(
            store,
        ).has_user_with_email(payload.email@),
        old(store).has_user_with_email(payload.email@) ==> (r is Ok || r == Err::<
            (String, i64),
            AppError,
        >(AppError::InternalError)),
        r is Ok ==> old(store).has_user_with_email(payload.email@),
        r matches Ok((tok, exp)) ==> {
            &&& tok@.len() == 36
            &&& final(store).users@.len() == old(store).users@.len()
            &&& forall|k: int|
                0 <= k < old(store).users@.len() ==> #[trigger] final(store).users@[k] == (if old(
                    store,
                ).users@[k].email@ == payload.email@ {
                    spec_with_reset(old(store).users@[k], tok, exp)
                } else {
                    old(store).users@[k]
                })
            &&& *final(store) == Store { users: final(store).users, ..*old(store) }
        },
{
    let now = now_seconds();
    if now > i64::MAX - RESET_TOKEN_TTL_SECONDS {
        // the clock reading is past the representable expiry horizon
        return Err(AppError::InternalError);
    }
    let token = fresh_token();
    let token_out = token.clone();
    match apply_reset_token(store, &payload.email, token, now) {
        Ok(()) => Ok((token_out, now + RESET_TOKEN_TTL_SECONDS)),
        Err(e) => Err(e),
    }
}


/// The first account row holding this reset token is at index `m`.
pub open spec fn spec_first_token_index(users: Seq<User>, tok: Seq<char>, m: int) -> bool {
    &&& 0 <= m < users.len()
    &&& spec_token_match(users[m], tok)
    &&& forall|k: int| 0 <= k < m ==> !spec_token_match(#[trigger] users[k], tok)
}

/// The account row as a successful reset rewrites it: some new password
/// hash installed, the token and its expiry cleared, all else untouched.
pub open spec fn spec_reset_applied(before: User, after: User) -> bool {
    &&& after == User {
        password_hash: after.password_hash,
        reset_token: None,
        reset_token_expiry: None,
        ..before
    }
    &&& after.password_hash is Some
}

/// The index of the first account row holding this reset token, if any.
fn find_user_index_by_reset_token(store: &Store, token: &String) -> (r: Option<usize>)
    ensures
        match r {
            Some(m) => spec_first_token_index(store.users@, token@, m as int),
            None => !spec_some_user_holds_token(store.users@, token@),
        },
{
    let n = store.users.len();
    for m in 0..n
        invariant
            n == store.users@.len(),
            forall|k: int| 0 <= k < m ==> !spec_token_match(#[trigger] store.users@[k], token@),
    {
        let holds = match &store.users[m].reset_token {
            Some(t) => t.eq(token),
            None => false,
        };
        if holds {
            return Some(m);
        }
    }
    None
}

/// The reset-password flow: the presented token must match an account and
/// be unexpired (`now` at most the stored expiry); then the new password's
/// hash replaces the old one and the token and expiry are cleared, so the
/// token cannot be presented again. A token matching no account, like an
/// expired one, reads as invalid.
pub fn reset_password(store: &mut Store, payload: &ResetPasswordRequest, now: i64) -> (r: Result<
    i32,
    AppError,
>)
    requires
        old(store).wf(),
    ensures
        final(store).wf(),
        r matches Err(e) ==> *final(store) == *old(store) && (e == AppError::InvalidOrExpiredToken
            || e == AppError::InternalError),
        !spec_some_user_holds_token(old(store).users@, payload.token@) ==> r == Err::<
            i32,
            AppError,
        >(AppError::InvalidOrExpiredToken),
        forall|m: int|
            spec_first_token_index(old(store).users@, payload.token@, m) && ((#[trigger] old(
                store,
            ).users@[m].reset_token_expiry) matches Some(e) && e < now) ==> r == Err::<
                i32,
                AppError,
            >(AppError::InvalidOrExpiredToken),
        forall|m: int|
            spec_first_token_index(old(store).users@, payload.token@, m) && !((#[trigger] old(
                store,
            ).users@[m].reset_token_expiry) matches Some(e) && e < now) ==> (r matches Ok(uid)
                && uid == old(store).users@[m].id || r == Err::<i32, AppError>(
                AppError::InternalError,
            )),
        r matches Ok(uid) ==> exists|m: int|
            {
                &&& #[trigger] spec_first_token_index(old(store).users@, payload.token@, m)
                &&& old(store).users@[m].id == uid
                &&& final(store).users@ == old(store).users@.update(m, final(store).users@[m])
                &&& spec_reset_applied(old(store).users@[m], final(store).users@[m])
                &&& *final(store) == Store { users: final(store).users, ..*old(store) }
            },
{
    let m = match find_user_index_by_reset_token(store, &payload.token) {
        Some(m) => m,
        None => {
            return Err(AppError::InvalidOrExpiredToken);
        },
    };
    let expired = match &store.users[m].reset_token_expiry {
        Some(e) => *e < now,
        None => false,
    };
    if expired {
        return Err(AppError::InvalidOrExpiredToken);
    }
    let hashed = match bcrypt_hash(payload.new_password.as_str()) {
        Ok(h) => h,
        Err(_) => {
            return Err(AppError::InternalError);
        },
    };
    let ghost s0 = *store;
    let mut u = store.users[m].clone();
    let uid = u.id;
    u.password_hash = Some(hashed);
    u.reset_token = None;
    u.reset_token_expiry = None;
    store.users.set(m, u);
    proof {
        assert(spec_first_token_index(s0.users@, payload.token@, m as int));
        assert(spec_reset_applied(s0.users@[m as int], store.users@[m as int]));
        assert forall|m2: int|
            spec_first_token_index(s0.users@, payload.token@, m2) implies m2 == m as int by {
            if m2 < m as int {
                assert(!spec_token_match(s0.users@[m2], payload.token@));
            }
            if m2 > m as int {
                assert(!spec_token_match(s0.users@[m as int], payload.token@));
            }
        }
        assert(store.wf()) by {
            assert forall|i: int, j: int|
                0 <= i < j < store.users@.len() implies store.users@[i].id != store.users@[j].id
                && store.users@[i].email@ != store.users@[j].email@ by {
                assert(store.users@[i].id == s0.users@[i].id);
                assert(store.users@[j].id == s0.users@[j].id);
                assert(store.users@[i].email@ == s0.users@[i].email@);
                assert(store.users@[j].email@ == s0.users@[j].email@);
            }
            assert forall|i: int|
                0 <= i < store.users@.len() implies ((#[trigger] store.users@[i].company_id)
                matches Some(c) ==> store.has_company(c)) && (store.users@[i].reset_token is Some
                <==> store.users@[i].reset_token_expiry is Some) && 1 <= store.users@[i].id
                < store.next_user_id by {
                match s0.users@[i].company_id {
                    Some(c) => {
                        assert(s0.has_company(c));
                    },
                    None => {},
                }
            }
        }
    }
    Ok(uid)
}

} // verus!
