use vstd::prelude::*;
use vstd::pervasive::VecAdditionalExecFns;
use vstd::string::StrSliceExecFns;
use vstd::string::StringExecFns;

use crate::entities::{AccountStatus, Role, User};
use crate::error::AppError;
use crate::external::{bcrypt_hash, fresh_token};
use crate::scope::{can_touch_user, is_admin, spec_can_touch_user, spec_is_admin};
use crate::store::Store;

verus! {

/// The creation and update payload for an account, as the transport
/// delivers it. An absent or empty password at creation draws a random
/// one; an absent status defaults to active.
pub struct CreateUserRequest {
    pub name: String,
    pub email: String,
    pub password: Option<String>,
    pub role: Role,
    pub company_id: Option<i32>,
    pub status: Option<AccountStatus>,
}

/// The update payload applied to one account row. The password hash is
/// pinned only as "present" when a new password was supplied, since its
/// value is salted randomness; the reset token fields are untouched.
pub open spec fn spec_user_updated(
    before: User,
    after: User,
    payload: CreateUserRequest,
    now: i64,
) -> bool {
    &&& after == User {
        name: payload.name,
        email: payload.email,
        role: payload.role,
        company_id: payload.company_id,
        status: match payload.status {
            Some(st) => st,
            None => before.status,
        },
        password_hash: after.password_hash,
        updated_at: now,
        ..before
    }
    &&& (match payload.password {
        Some(p) => p@.len() > 0 ==> after.password_hash is Some,
        None => true,
    })
    &&& (match payload.password {
        Some(p) => p@.len() == 0 ==> after.password_hash == before.password_hash,
        None => after.password_hash == before.password_hash,
    })
}

/// Another account — one with a different id — already carries this email.
pub open spec fn spec_email_taken_by_other(s: Store, email: Seq<char>, id: i32) -> bool {
    exists|k: int|
        0 <= k < s.users@.len() && (#[trigger] s.users@[k]).email@ == email && s.users@[k].id != id
}

/// Whether this email belongs to an account other than `id`.
fn email_taken_by_other(store: &Store, email: &String, id: i32) -> (r: bool)
    requires
        store.wf(),
    ensures
        r == spec_email_taken_by_other(*store, email@, id),
{
    match store.find_user_by_email(email) {
        Some(other) => {
            proof {
                let k2 = choose|k2: int|
                    0 <= k2 < store.users@.len() && store.users@[k2] == *other;
                if other.id != id {
                    assert(store.users@[k2].email@ == email@ && store.users@[k2].id != id);
                    assert(spec_email_taken_by_other(*store, email@, id));
                } else {
                    if spec_email_taken_by_other(*store, email@, id) {
                        let k = choose|k: int|
                            0 <= k < store.users@.len() && (#[trigger] store.users@[k]).email@
                                == email@ && store.users@[k].id != id;
                        // two rows with one email collapse to one under `wf`
                        if k != k2 {
                            if k < k2 {
                                assert(store.users@[k].email@ != store.users@[k2].email@);
                            } else {
                                assert(store.users@[k2].email@ != store.users@[k].email@);
                            }
                        }
                        assert(false);
                    }
                }
            }
            other.id != id
        },
        None => {
            proof {
                if spec_email_taken_by_other(*store, email@, id) {
                    let k = choose|k: int|
                        0 <= k < store.users@.len() && (#[trigger] store.users@[k]).email@
                            == email@ && store.users@[k].id != id;
                    assert(store.has_user_with_email(email@));
                    assert(false);
                }
            }
            false
        },
    }
}

/// Lists every account. Superadmin only.
pub fn get_all_users(store: &Store, actor: &User) -> (r: Result<Vec<User>, AppError>)
    ensures
        r is Ok <==> spec_is_admin(*actor),
        !spec_is_admin(*actor) ==> r == Err::<Vec<User>, AppError>(AppError::Forbidden),
        r matches Ok(v) ==> v@ == store.users@,
{
    if !is_admin(actor) {
        return Err(AppError::Forbidden);
    }
    let mut out: Vec<User> = Vec::new();
    let n = store.users.len();
    for i in 0..n
        invariant
            n == store.users@.len(),
            out@ == store.users@.take(i as int),
    {
        out.push(store.users[i].clone());
        proof {
            assert(store.users@.take(i + 1 as int) =~= store.users@.take(i as int).push(
                store.users@[i as int],
            ));
        }
    }
    proof {
        assert(store.users@.take(n as int) =~= store.users@);
    }
    Ok(out)
}

/// Reads one account: a superadmin reads any, others only their own. The
/// scope check runs before the lookup, so existence never leaks.
pub fn get_user_by_id(store: &Store, actor: &User, id: i32) -> (r: Result<User, AppError>)
    requires
        store.wf(),
    ensures
        r is Ok <==> spec_can_touch_user(*actor, id) && store.has_user(id),
        !spec_can_touch_user(*actor, id) ==> r == Err::<User, AppError>(AppError::Forbidden),
        spec_can_touch_user(*actor, id) && !store.has_user(id) ==> r == Err::<User, AppError>(
            AppError::NotFound,
        ),
        r matches Ok(u) ==> u == store.user_by_id(id),
{
    if !can_touch_user(actor, id) {
        return Err(AppError::Forbidden);
    }
    match store.find_user(id) {
        None => Err(AppError::NotFound),
        Some(u) => {
            proof {
                store.lemma_user_found_is_unique(*u);
            }
            Ok(u.clone())
        },
    }
}

/// Creates an account. Superadmin only; the email must be unused and a
/// named tenant must exist. A supplied non-empty password is hashed;
/// otherwise a random 12-character one is drawn, hashed, and returned
/// alongside the row so the caller can deliver it.
pub fn create_user(store: &mut Store, actor: &User, payload: CreateUserRequest, now: i64) -> (r:
    Result<(User, Option<String>), AppError>)
    requires
        old(store).wf(),
    ensures
        final(store).wf(),
        r matches Err(e) ==> *final(store) == *old(store) && (e == AppError::Forbidden || e
            == AppError::Validation || e == AppError::InternalError),
        !spec_is_admin(*actor) ==> r == Err::<(User, Option<String>), AppError>(
            AppError::Forbidden,
        ),
        spec_is_admin(*actor) && old(store).has_user_with_email(payload.email@) ==> r == Err::<
            (User, Option<String>),
            AppError,
        >(AppError::Validation),
        spec_is_admin(*actor) && !old(store).has_user_with_email(payload.email@) && (
        payload.company_id matches Some(c) && !old(store).has_company(c)) ==> r == Err::<
            (User, Option<String>),
            AppError,
        >(AppError::Validation),
        r is Ok ==> spec_is_admin(*actor) && !old(store).has_user_with_email(payload.email@) && (
        payload.company_id matches Some(c) ==> old(store).has_company(c)),
        r == Err::<(User, Option<String>), AppError>(AppError::Forbidden) ==> !spec_is_admin(
            *actor,
        ),
        r == Err::<(User, Option<String>), AppError>(AppError::Validation) ==> spec_is_admin(
            *actor,
        ) && (old(store).has_user_with_email(payload.email@) || (payload.company_id matches Some(c)
            && !old(store).has_company(c))),
        spec_is_admin(*actor) && !old(store).has_user_with_email(payload.email@) && (
        payload.company_id matches Some(c) ==> old(store).has_company(c)) ==> (r is Ok || r
            == Err::<(User, Option<String>), AppError>(AppError::InternalError)),
        r matches Ok((u, raw)) ==> {
            &&& u.id == old(store).next_user_id
            &&& u.name == payload.name
            &&& u.email == payload.email
            &&& u.role == payload.role
            &&& u.status == (match payload.status {
                Some(st) => st,
                None => AccountStatus::Active,
            })
            &&& u.password_hash is Some
            &&& u.reset_token is None
            &&& u.reset_token_expiry is None
            &&& u.company_id == payload.company_id
            &&& u.created_at == now && u.updated_at == now
            &&& final(store).users@ == old(store).users@.push(u)
            &&& final(store).next_user_id == old(store).next_user_id + 1
            &&& *final(store) == Store {
                users: final(store).users,
                next_user_id: final(store).next_user_id,
                ..*old(store)
            }
            &&& (match payload.password {
                Some(p) => p@.len() > 0 ==> raw is None,
                None => raw is Some,
            })
            &&& (raw matches Some(w) ==> w@.len() == 12)
        },
{
    if !is_admin(actor) {
        return Err(AppError::Forbidden);
    }
    if store.find_user_by_email(&payload.email).is_some() {
        return Err(AppError::Validation);
    }
    match payload.company_id {
        Some(c) => {
            if store.find_company(c).is_none() {
                return Err(AppError::Validation);
            }
        },
        None => {},
    }
    let supplied = match &payload.password {
        Some(p) => p.unicode_len() > 0,
        None => false,
    };
    let mut raw_out: Option<String> = None;
    let hash_source: String;
    if supplied {
        hash_source = match payload.password {
            Some(p) => p,
            None => String::new(),
        };
    } else {
        let drawn = fresh_token();
        let short = drawn.as_str().substring_char(0, 12);
        let pwd = short.to_owned();
        raw_out = Some(pwd.clone());
        hash_source = pwd;
    }
    let hashed = match bcrypt_hash(hash_source.as_str()) {
        Ok(h) => h,
        Err(_) => {
            return Err(AppError::InternalError);
        },
    };
    if store.next_user_id == i32::MAX {
        return Err(AppError::InternalError);
    }
    let ghost s0 = *store;
    let u = User {
        id: store.next_user_id,
        name: payload.name,
        email: payload.email,
        role: payload.role,
        status: match payload.status {
            Some(st) => st,
            None => AccountStatus::Active,
        },
        password_hash: Some(hashed),
        reset_token: None,
        reset_token_expiry: None,
        company_id: payload.company_id,
        created_at: now,
        updated_at: now,
    };
    let result = u.clone();
    store.users.push(u);
    store.next_user_id = store.next_user_id + 1;
    proof {
        assert forall|i: int, j: int|
            0 <= i < j < store.users@.len() implies store.users@[i].id != store.users@[j].id
            && store.users@[i].email@ != store.users@[j].email@ by {
            if j == store.users@.len() - 1 {
                assert(store.users@[i] == s0.users@[i]);
                assert(s0.users@[i].email@ != result.email@) by {
                    if s0.users@[i].email@ == result.email@ {
                        assert(s0.has_user_with_email(result.email@));
                    }
                }
            }
        }
        assert forall|i: int|
            0 <= i < store.users@.len() implies ((#[trigger] store.users@[i].company_id)
            matches Some(c) ==> store.has_company(c)) && (store.users@[i].reset_token is Some
            <==> store.users@[i].reset_token_expiry is Some) && 1 <= store.users@[i].id
            < store.next_user_id by {
            if i < store.users@.len() - 1 {
                assert(store.users@[i] == s0.users@[i]);
                match s0.users@[i].company_id {
                    Some(c) => {
                        assert(s0.has_company(c));
                    },
                    None => {},
                }
            } else {
                match result.company_id {
                    Some(c) => {
                        assert(s0.has_company(c));
                    },
                    None => {},
                }
            }
        }
        assert(store.wf());
    }
    Ok((result, raw_out))
}

/// Rewrites one account: a superadmin rewrites any, others only their own.
/// The new email must not belong to a different account and a named tenant
/// must exist. A supplied non-empty password replaces the stored hash.
pub fn update_user(
    store: &mut Store,
    actor: &User,
    id: i32,
    payload: CreateUserRequest,
    now: i64,
) -> (r: Result<User, AppError>)
    requires
        old(store).wf(),
    ensures
        final(store).wf(),
        r matches Err(e) ==> *final(store) == *old(store) && (e == AppError::Forbidden || e
            == AppError::NotFound || e == AppError::Validation || e == AppError::InternalError),
        !spec_can_touch_user(*actor, id) ==> r == Err::<User, AppError>(AppError::Forbidden),
        spec_can_touch_user(*actor, id) && !old(store).has_user(id) ==> r == Err::<User, AppError>(
            AppError::NotFound,
        ),
        r is Ok ==> spec_can_touch_user(*actor, id) && old(store).has_user(id),
        r == Err::<User, AppError>(AppError::Forbidden) ==> !spec_can_touch_user(*actor, id),
        r == Err::<User, AppError>(AppError::Validation) <==> spec_can_touch_user(*actor, id)
            && old(store).has_user(id) && (spec_email_taken_by_other(
            *old(store),
            payload.email@,
            id,
        ) || (payload.company_id matches Some(c) && !old(store).has_company(c))),
        spec_can_touch_user(*actor, id) && old(store).has_user(id) && !spec_email_taken_by_other(
            *old(store),
            payload.email@,
            id,
        ) && (payload.company_id matches Some(c) ==> old(store).has_company(c)) ==> (r is Ok || r
            == Err::<User, AppError>(AppError::InternalError)),
        spec_can_touch_user(*actor, id) && old(store).has_user(id) && !spec_email_taken_by_other(
            *old(store),
            payload.email@,
            id,
        ) && (payload.company_id matches Some(c) ==> old(store).has_company(c)) && !(
        payload.password matches Some(p) && p@.len() > 0) ==> r is Ok,
        r matches Ok(u) ==> {
            &&& spec_user_updated(old(store).user_by_id(id), u, payload, now)
            &&& final(store).users@.len() == old(store).users@.len()
            &&& forall|k: int|
                0 <= k < old(store).users@.len() ==> #[trigger] final(store).users@[k] == (if old(
                    store,
                ).users@[k].id == id {
                    u
                } else {
                    old(store).users@[k]
                })
            &&& *final(store) == Store { users: final(store).users, ..*old(store) }
        },
{
    if !can_touch_user(actor, id) {
        return Err(AppError::Forbidden);
    }
    let m = match find_user_index(store, id) {
        Some(m) => m,
        None => {
            return Err(AppError::NotFound);
        },
    };
    proof {
        assert(store.users@.contains(store.users@[m as int]));
        store.lemma_user_found_is_unique(store.users@[m as int]);
    }
    // the new email may not belong to a different account
    if email_taken_by_other(store, &payload.email, id) {
        return Err(AppError::Validation);
    }
    match payload.company_id {
        Some(c) => {
            if store.find_company(c).is_none() {
                return Err(AppError::Validation);
            }
        },
        None => {},
    }
    let new_hash: Option<String> = match &payload.password {
        Some(p) => {
            if p.unicode_len() > 0 {
                match bcrypt_hash(p.as_str()) {
                    Ok(h) => Some(h),
                    Err(_) => {
                        return Err(AppError::InternalError);
                    },
                }
            } else {
                None
            }
        },
        None => None,
    };
    let ghost s0 = *store;
    let mut u = store.users[m].clone();
    u.name = payload.name;
    u.email = payload.email;
    u.role = payload.role;
    u.company_id = payload.company_id;
    match payload.status {
        Some(st) => {
            u.status = st;
        },
        None => {},
    }
    match new_hash {
        Some(h) => {
            u.password_hash = Some(h);
        },
        None => {},
    }
    u.updated_at = now;
    let result = u.clone();
    store.users.set(m, u);
    proof {
        assert(spec_user_updated(s0.users@[m as int], result, payload, now));
        assert forall|k: int|
            0 <= k < store.users@.len() implies #[trigger] store.users@[k] == (if s0.users@[k].id
            == id {
            result
        } else {
            s0.users@[k]
        }) by {
            if k != m {
                assert(store.users@[k] == s0.users@[k]);
                if s0.users@[k].id == id {
                    assert(s0.users@[m as int].id == id);
                    assert(false);
                }
            }
        }
        assert(store.wf()) by {
            assert forall|i: int, j: int|
                0 <= i < j < store.users@.len() implies store.users@[i].id != store.users@[j].id
                && store.users@[i].email@ != store.users@[j].email@ by {
                assert(store.users@[i].id == s0.users@[i].id);
                assert(store.users@[j].id == s0.users@[j].id);
                if i != m && j != m {
                    assert(store.users@[i].email@ == s0.users@[i].email@);
                    assert(store.users@[j].email@ == s0.users@[j].email@);
                } else {
                    // one side carries the new email, which matches no other row
                    assert(!s0.has_user_with_email(result.email@) || s0.user_by_email(
                        result.email@,
                    ).id == id) by {
                        if s0.has_user_with_email(result.email@) {
                            let w = choose|w: int|
                                0 <= w < s0.users@.len() && s0.users@[w].email@ == result.email@;
                            assert(s0.users@.contains(s0.users@[w]));
                            s0.lemma_user_found_is_unique(s0.users@[w]);
                        }
                    }
                }
            }
            assert forall|i: int|
                0 <= i < store.users@.len() implies ((#[trigger] store.users@[i].company_id)
                matches Some(c) ==> store.has_company(c)) && (store.users@[i].reset_token is Some
                <==> store.users@[i].reset_token_expiry is Some) && 1 <= store.users@[i].id
                < store.next_user_id by {
                if i != m {
                    assert(store.users@[i] == s0.users@[i]);
                    match s0.users@[i].company_id {
                        Some(c) => {
                            assert(s0.has_company(c));
                        },
                        None => {},
                    }
                } else {
                    match result.company_id {
                        Some(c) => {
                            assert(s0.has_company(c));
                        },
                        None => {},
                    }
                }
            }
        }
    }
    Ok(result)
}

/// The index of the account row carrying this id, if any.
fn find_user_index(store: &Store, id: i32) -> (r: Option<usize>)
    ensures
        match r {
            Some(m) => m < store.users@.len() && store.users@[m as int].id == id,
            None => !store.has_user(id),
        },
{
    let n = store.users.len();
    for i in 0..n
        invariant
            n == store.users@.len(),
            forall|k: int| 0 <= k < i ==> store.users@[k].id != id,
    {
        if store.users[i].id == id {
            return Some(i);
        }
    }
    None
}


/// Start-up bootstrap: installs the default superadmin account unless one
/// with the given email already exists. Returns whether a row was added.
pub fn ensure_default_admin(
    store: &mut Store,
    name: String,
    email: String,
    password_hash: String,
    now: i64,
) -> (r: Result<bool, AppError>)
    requires
        old(store).wf(),
    ensures
        final(store).wf(),
        old(store).has_user_with_email(email@) ==> r == Ok::<bool, AppError>(false)
            && *final(store) == *old(store),
        r matches Err(e) ==> e == AppError::InternalError && *final(store) == *old(store),
        !old(store).has_user_with_email(email@) && old(store).next_user_id < i32::MAX ==> r
            == Ok::<bool, AppError>(true),
        r == Ok::<bool, AppError>(true) ==> {
            &&& final(store).users@.len() == old(store).users@.len() + 1
            &&& final(store).users@.drop_last() == old(store).users@
            &&& final(store).users@.last() == (User {
                id: old(store).next_user_id,
                name: name,
                email: email,
                role: Role::Superadmin,
                status: AccountStatus::Active,
                password_hash: Some(password_hash),
                reset_token: None,
                reset_token_expiry: None,
                company_id: None,
                created_at: now,
                updated_at: now,
            })
            &&& final(store).next_user_id == old(store).next_user_id + 1
            &&& *final(store) == Store {
                users: final(store).users,
                next_user_id: final(store).next_user_id,
                ..*old(store)
            }
        },
{
    if store.find_user_by_email(&email).is_some() {
        return Ok(false);
    }
    if store.next_user_id == i32::MAX {
        return Err(AppError::InternalError);
    }
    let ghost s0 = *store;
    let u = User {
        id: store.next_user_id,
        name,
        email,
        role: Role::Superadmin,
        status: AccountStatus::Active,
        password_hash: Some(password_hash),
        reset_token: None,
        reset_token_expiry: None,
        company_id: None,
        created_at: now,
        updated_at: now,
    };
    let ghost urow = u;
    store.users.push(u);
    store.next_user_id = store.next_user_id + 1;
    proof {
        assert forall|i: int, j: int|
            0 <= i < j < store.users@.len() implies store.users@[i].id != store.users@[j].id
            && store.users@[i].email@ != store.users@[j].email@ by {
            if j == store.users@.len() - 1 {
                assert(store.users@[i] == s0.users@[i]);
                assert(s0.users@[i].email@ != urow.email@) by {
                    if s0.users@[i].email@ == urow.email@ {
                        assert(s0.has_user_with_email(urow.email@));
                    }
                }
            }
        }
        assert forall|i: int|
            0 <= i < store.users@.len() implies ((#[trigger] store.users@[i].company_id)
            matches Some(c) ==> store.has_company(c)) && (store.users@[i].reset_token is Some
            <==> store.users@[i].reset_token_expiry is Some) && 1 <= store.users@[i].id
            < store.next_user_id by {
            if i < store.users@.len() - 1 {
                assert(store.users@[i] == s0.users@[i]);
                match s0.users@[i].company_id {
                    Some(c) => {
                        assert(s0.has_company(c));
                    },
                    None => {},
                }
            }
        }
        assert(store.wf());
        assert(store.users@.drop_last() =~= s0.users@);
    }
    Ok(true)
}


/// Maintenance path: sets (or, when the account is missing, creates with)
/// the administrator's password hash for the given email. Returns whether a
/// row was created.
pub fn reset_admin_password(
    store: &mut Store,
    email: String,
    password_hash: String,
    now: i64,
) -> (r: Result<bool, AppError>)
    requires
        old(store).wf(),
    ensures
        final(store).wf(),
        r matches Err(e) ==> e == AppError::InternalError && *final(store) == *old(store),
        old(store).has_user_with_email(email@) ==> r == Ok::<bool, AppError>(false) && {
            &&& final(store).users@.len() == old(store).users@.len()
            &&& forall|k: int|
                0 <= k < old(store).users@.len() ==> #[trigger] final(store).users@[k] == (if old(
                    store,
                ).users@[k].email@ == email@ {
                    User { password_hash: final(store).users@[k].password_hash, ..old(
                        store,
                    ).users@[k] }
                } else {
                    old(store).users@[k]
                })
            &&& *final(store) == Store { users: final(store).users, ..*old(store) }
        },
        !old(store).has_user_with_email(email@) && old(store).next_user_id < i32::MAX ==> r
            == Ok::<bool, AppError>(true),
        r == Ok::<bool, AppError>(true) ==> {
            &&& final(store).users@.len() == old(store).users@.len() + 1
            &&& final(store).users@.drop_last() == old(store).users@
            &&& final(store).users@.last().role == Role::Superadmin
            &&& final(store).users@.last().email == email
            &&& final(store).users@.last().password_hash is Some
        },
{
    let m = match find_user_index_by_email_local(store, &email) {
        Some(m) => m,
        None => {
            return match ensure_default_admin(
                store,
                admin_display_name(),
                email,
                password_hash,
                now,
            ) {
                Ok(b) => Ok(b),
                Err(e) => Err(e),
            };
        },
    };
    let ghost s0 = *store;
    let mut u = store.users[m].clone();
    u.password_hash = Some(password_hash);
    store.users.set(m, u);
    proof {
        assert forall|k: int|
            0 <= k < store.users@.len() implies #[trigger] store.users@[k] == (if s0.users@[k].email@
            == email@ {
            User { password_hash: store.users@[k].password_hash, ..s0.users@[k] }
        } else {
            s0.users@[k]
        }) by {
            if k != m {
                assert(store.users@[k] == s0.users@[k]);
                if s0.users@[k].email@ == email@ {
                    assert(s0.users@[m as int].email@ == email@);
                    assert(false);
                }
            }
        }
        assert(store.wf()) by {
            assert forall|i: int, j: int|
                0 <= i < j < store.users@.len() implies store.users@[i].id != store.users@[j].id
                && store.users@[i].email@ != store.users@[j].email@ by {
                assert(store.users@[i].id == s0.users@[i].id);
                assert(store.users@[j].id == s0.users@[j].id);
                assert(store.users@[i].email@ == s0.users@[i].email@);
                assert(store.users@[j].email@ == s0.users@[j].email@);
            }
            assert forall|i: int|
                0 <= i < store.users@.len() implies ((#[trigger] store.users@[i].company_id)
                matches Some(c) ==> store.has_company(c)) && (store.users@[i].reset_token is Some
                <==> store.users@[i].reset_token_expiry is Some) && 1 <= store.users@[i].id
                < store.next_user_id by {
                match s0.users@[i].company_id {
                    Some(c) => {
                        assert(s0.has_company(c));
                    },
                    None => {},
                }
            }
        }
    }
    Ok(false)
}

/// The display name the bootstrap and maintenance paths give the
/// administrator account.
fn admin_display_name() -> (r: String)
    ensures
        r@ == "Super Administrator"@,
{
    String::from_str("Super Administrator")
}

/// The index of the account row carrying this email, if any.
fn find_user_index_by_email_local(store: &Store, email: &String) -> (r: Option<usize>)
    ensures
        match r {
            Some(m) => m < store.users@.len() && store.users@[m as int].email@ == email@,
            None => !store.has_user_with_email(email@),
        },
{
    let n = store.users.len();
    for i in 0..n
        invariant
            n == store.users@.len(),
            forall|k: int| 0 <= k < i ==> store.users@[k].email@ != email@,
    {
        if store.users[i].email.eq(email) {
            return Some(i);
        }
    }
    None
}

} // verus!
