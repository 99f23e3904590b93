use vstd::prelude::*;
use vstd::pervasive::VecAdditionalExecFns;

use crate::entities::{AccountStatus, Company, User};
use crate::error::AppError;
use crate::scope::{can_read_company, is_admin, spec_can_read_company, spec_is_admin};
use crate::seq_lemmas::{lemma_filter_take_step, lemma_map_take_step, lemma_take_all};
use crate::store::Store;

verus! {

/// The creation and update payload for a company.
pub struct CreateCompanyRequest {
    pub name: String,
    pub address: Option<String>,
    pub contact_email: Option<String>,
    pub status: AccountStatus,
}

/// One company row with its member and ticket counts, as the list
/// endpoint reports it.
pub struct CompanyOverview {
    pub company: Company,
    pub users_count: usize,
    pub incidents_count: usize,
}

/// A company row rewritten by an update payload.
pub open spec fn spec_company_patched(c: Company, payload: CreateCompanyRequest, now: i64) -> Company {
    Company {
        name: payload.name,
        address: payload.address,
        contact_email: payload.contact_email,
        status: payload.status,
        updated_at: now,
        ..c
    }
}

/// A member row as the deactivation side effect rewrites it: members of
/// the tenant are forced inactive, everyone else is untouched.
pub open spec fn spec_deactivated_member(u: User, cid: i32) -> User {
    if u.company_id == Some(cid) {
        User { status: AccountStatus::Inactive, ..u }
    } else {
        u
    }
}

/// Counts the accounts belonging to one tenant.
fn count_users_of_company(store: &Store, cid: i32) -> (r: usize)
    ensures
        r == store.users@.filter((|u: User| u.company_id == Some(cid))).len(),
{
    let ghost pred = |u: User| u.company_id == Some(cid);
    let mut count: usize = 0;
    let n = store.users.len();
    for i in 0..n
        invariant
            n == store.users@.len(),
            pred == (|u: User| u.company_id == Some(cid)),
            count == store.users@.take(i as int).filter(pred).len(),
            count <= i,
    {
        proof {
            lemma_filter_take_step(store.users@, pred, i as int);
        }
        let member = match store.users[i].company_id {
            Some(c) => c == cid,
            None => false,
        };
        if member {
            count = count + 1;
        }
    }
    proof {
        lemma_take_all(store.users@);
    }
    count
}

/// Counts the incidents filed under one tenant.
fn count_incidents_of_company(store: &Store, cid: i32) -> (r: usize)
    ensures
        r == store.incidents@.filter(
            (|inc: crate::entities::Incident| inc.company_id == cid),
        ).len(),
{
    let ghost pred = |inc: crate::entities::Incident| inc.company_id == cid;
    let mut count: usize = 0;
    let n = store.incidents.len();
    for i in 0..n
        invariant
            n == store.incidents@.len(),
            pred == (|inc: crate::entities::Incident| inc.company_id == cid),
            count == store.incidents@.take(i as int).filter(pred).len(),
            count <= i,
    {
        proof {
            lemma_filter_take_step(store.incidents@, pred, i as int);
        }
        if store.incidents[i].company_id == cid {
            count = count + 1;
        }
    }
    proof {
        lemma_take_all(store.incidents@);
    }
    count
}

/// Lists every company with its member and ticket counts. Superadmin only.
pub fn get_all_companies(store: &Store, actor: &User) -> (r: Result<Vec<CompanyOverview>, AppError>)
    ensures
        r is Ok <==> spec_is_admin(*actor),
        !spec_is_admin(*actor) ==> r == Err::<Vec<CompanyOverview>, AppError>(AppError::Forbidden),
        r matches Ok(v) ==> {
            &&& v@.len() == store.companies@.len()
            &&& forall|k: int|
                0 <= k < v@.len() ==> {
                    &&& (#[trigger] v@[k]).company == store.companies@[k]
                    &&& v@[k].users_count == store.users@.filter(
                        (|u: User| u.company_id == Some(store.companies@[k].id)),
                    ).len()
                    &&& v@[k].incidents_count == store.incidents@.filter(
                        (|inc: crate::entities::Incident| inc.company_id
                            == store.companies@[k].id),
                    ).len()
                }
        },
{
    if !is_admin(actor) {
        return Err(AppError::Forbidden);
    }
    let mut out: Vec<CompanyOverview> = Vec::new();
    let n = store.companies.len();
    for i in 0..n
        invariant
            n == store.companies@.len(),
            out@.len() == i,
            forall|k: int|
                0 <= k < i ==> {
                    &&& (#[trigger] out@[k]).company == store.companies@[k]
                    &&& out@[k].users_count == store.users@.filter(
                        (|u: User| u.company_id == Some(store.companies@[k].id)),
                    ).len()
                    &&& out@[k].incidents_count == store.incidents@.filter(
                        (|inc: crate::entities::Incident| inc.company_id
                            == store.companies@[k].id),
                    ).len()
                },
    {
        let cid = store.companies[i].id;
        let users_count = count_users_of_company(store, cid);
        let incidents_count = count_incidents_of_company(store, cid);
        out.push(
            CompanyOverview { company: store.companies[i].clone(), users_count, incidents_count },
        );
    }
    Ok(out)
}

/// Creates a company. Superadmin only.
pub fn create_company(store: &mut Store, actor: &User, payload: CreateCompanyRequest, now: i64) -> (r:
    Result<Company, AppError>)
    requires
        old(store).wf(),
    ensures
        final(store).wf(),
        r matches Err(e) ==> *final(store) == *old(store) && (e == AppError::Forbidden || e
            == AppError::InternalError),
        !spec_is_admin(*actor) ==> r == Err::<Company, AppError>(AppError::Forbidden),
        spec_is_admin(*actor) && old(store).next_company_id < i32::MAX ==> r is Ok,
        r matches Ok(c) ==> {
            &&& c.id == old(store).next_company_id
            &&& c.name == payload.name
            &&& c.address == payload.address
            &&& c.contact_email == payload.contact_email
            &&& c.status == payload.status
            &&& c.created_at == now && c.updated_at == now
            &&& final(store).companies@ == old(store).companies@.push(c)
            &&& final(store).next_company_id == old(store).next_company_id + 1
            &&& *final(store) == Store {
                companies: final(store).companies,
                next_company_id: final(store).next_company_id,
                ..*old(store)
            }
        },
{
    if !is_admin(actor) {
        return Err(AppError::Forbidden);
    }
    if store.next_company_id == i32::MAX {
        return Err(AppError::InternalError);
    }
    let ghost s0 = *store;
    let c = Company {
        id: store.next_company_id,
        name: payload.name,
        status: payload.status,
        address: payload.address,
        contact_email: payload.contact_email,
        created_at: now,
        updated_at: now,
    };
    let result = c.clone();
    store.companies.push(c);
    store.next_company_id = store.next_company_id + 1;
    proof {
        assert forall|i: int, j: int|
            0 <= i < j < store.companies@.len() implies store.companies@[i].id
            != store.companies@[j].id by {
            if j == store.companies@.len() - 1 {
                assert(store.companies@[i] == s0.companies@[i]);
            }
        }
        assert forall|i: int|
            0 <= i < store.users@.len() implies ((#[trigger] store.users@[i].company_id)
            matches Some(cc) ==> store.has_company(cc)) by {
            match s0.users@[i].company_id {
                Some(cc) => {
                    assert(s0.has_company(cc));
                    let w = choose|w: int|
                        0 <= w < s0.companies@.len() && s0.companies@[w].id == cc;
                    assert(store.companies@[w].id == cc);
                },
                None => {},
            }
        }
        assert(store.wf());
    }
    Ok(result)
}

/// Reads one company: a superadmin reads any, a member only their own.
/// The scope check runs before the lookup, so existence never leaks.
pub fn get_company_by_id(store: &Store, actor: &User, id: i32) -> (r: Result<Company, AppError>)
    requires
        store.wf(),
    ensures
        r is Ok <==> spec_can_read_company(*actor, id) && store.has_company(id),
        !spec_can_read_company(*actor, id) ==> r == Err::<Company, AppError>(AppError::Forbidden),
        spec_can_read_company(*actor, id) && !store.has_company(id) ==> r == Err::<
            Company,
            AppError,
        >(AppError::NotFound),
        r matches Ok(c) ==> c == store.company_by_id(id),
{
    if !can_read_company(actor, id) {
        return Err(AppError::Forbidden);
    }
    match store.find_company(id) {
        None => Err(AppError::NotFound),
        Some(c) => {
            proof {
                store.lemma_company_found_is_unique(*c);
            }
            Ok(c.clone())
        },
    }
}

/// The index of the company row carrying this id, if any.
fn find_company_index(store: &Store, id: i32) -> (r: Option<usize>)
    ensures
        match r {
            Some(m) => m < store.companies@.len() && store.companies@[m as int].id == id,
            None => !store.has_company(id),
        },
{
    let n = store.companies.len();
    for i in 0..n
        invariant
            n == store.companies@.len(),
            forall|k: int| 0 <= k < i ==> store.companies@[k].id != id,
    {
        if store.companies[i].id == id {
            return Some(i);
        }
    }
    None
}

/// Forces every member of the tenant inactive.
fn deactivate_members(v: &Vec<User>, cid: i32) -> (r: Vec<User>)
    ensures
        r@ == v@.map_values((|u: User| spec_deactivated_member(u, cid))),
{
    let ghost f = |u: User| spec_deactivated_member(u, cid);
    let mut out: Vec<User> = Vec::new();
    let n = v.len();
    for i in 0..n
        invariant
            n == v@.len(),
            f == (|u: User| spec_deactivated_member(u, cid)),
            out@ == v@.take(i as int).map_values(f),
    {
        proof {
            lemma_map_take_step(v@, f, i as int);
        }
        let mut u = v[i].clone();
        let member = match u.company_id {
            Some(c) => c == cid,
            None => false,
        };
        if member {
            u.status = AccountStatus::Inactive;
        }
        assert(u == f(v@[i as int]));
        out.push(u);
    }
    proof {
        lemma_take_all(v@);
    }
    out
}

/// Rewrites one company. Superadmin only. When the new status is
/// inactive, every member account of the tenant is forced inactive as a
/// side effect of the same update; setting a company back to active
/// reactivates nobody.
pub fn update_company(
    store: &mut Store,
    actor: &User,
    id: i32,
    payload: CreateCompanyRequest,
    now: i64,
) -> (r: Result<Company, AppError>)
    requires
        old(store).wf(),
    ensures
        final(store).wf(),
        r matches Err(e) ==> *final(store) == *old(store) && (e == AppError::Forbidden || e
            == AppError::NotFound),
        !spec_is_admin(*actor) ==> r == Err::<Company, AppError>(AppError::Forbidden),
        spec_is_admin(*actor) && !old(store).has_company(id) ==> r == Err::<Company, AppError>(
            AppError::NotFound,
        ),
        r is Ok <==> spec_is_admin(*actor) && old(store).has_company(id),
        r matches Ok(c) ==> {
            &&& c == spec_company_patched(old(store).company_by_id(id), payload, now)
            &&& final(store).companies@.len() == old(store).companies@.len()
            &&& forall|k: int|
                0 <= k < old(store).companies@.len() ==> #[trigger] final(store).companies@[k]
                    == (if old(store).companies@[k].id == id {
                    c
                } else {
                    old(store).companies@[k]
                })
            &&& final(store).users@ == (if payload.status == AccountStatus::Inactive {
                old(store).users@.map_values((|u: User| spec_deactivated_member(u, id)))
            } else {
                old(store).users@
            })
            &&& *final(store) == Store {
                companies: final(store).companies,
                users: final(store).users,
                ..*old(store)
            }
        },
{
    if !is_admin(actor) {
        return Err(AppError::Forbidden);
    }
    let m = match find_company_index(store, id) {
        Some(m) => m,
        None => {
            return Err(AppError::NotFound);
        },
    };
    proof {
        assert(store.companies@.contains(store.companies@[m as int]));
        store.lemma_company_found_is_unique(store.companies@[m as int]);
    }
    let ghost s0 = *store;
    let inactive = payload.status == AccountStatus::Inactive;
    let mut c = store.companies[m].clone();
    c.name = payload.name;
    c.address = payload.address;
    c.contact_email = payload.contact_email;
    c.status = payload.status;
    c.updated_at = now;
    let result = c.clone();
    store.companies.set(m, c);
    proof {
        assert(result == spec_company_patched(s0.companies@[m as int], payload, now));
        assert forall|k: int|
            0 <= k < store.companies@.len() implies #[trigger] store.companies@[k] == (if s0
            .companies@[k].id == id {
            result
        } else {
            s0.companies@[k]
        }) by {
            if k != m {
                assert(store.companies@[k] == s0.companies@[k]);
                if s0.companies@[k].id == id {
                    assert(s0.companies@[m as int].id == id);
                    assert(false);
                }
            }
        }
    }
    let ghost s1 = *store;
    if inactive {
        let new_users = deactivate_members(&store.users, id);
        store.users = new_users;
    }
    proof {
        assert forall|i: int, j: int|
            0 <= i < j < store.companies@.len() implies store.companies@[i].id
            != store.companies@[j].id by {
            assert(store.companies@[i].id == s0.companies@[i].id);
            assert(store.companies@[j].id == s0.companies@[j].id);
        }
        assert forall|i: int, j: int|
            0 <= i < j < store.users@.len() implies store.users@[i].id != store.users@[j].id
            && store.users@[i].email@ != store.users@[j].email@ by {
            assert(store.users@[i].id == s0.users@[i].id);
            assert(store.users@[j].id == s0.users@[j].id);
            assert(store.users@[i].email@ == s0.users@[i].email@);
            assert(store.users@[j].email@ == s0.users@[j].email@);
        }
        assert forall|i: int|
            0 <= i < store.users@.len() implies ((#[trigger] store.users@[i].company_id)
            matches Some(cc) ==> store.has_company(cc)) && (store.users@[i].reset_token is Some
            <==> store.users@[i].reset_token_expiry is Some) && 1 <= store.users@[i].id
            < store.next_user_id by {
            assert(store.users@[i].company_id == s0.users@[i].company_id);
            assert(store.users@[i].reset_token == s0.users@[i].reset_token);
            assert(store.users@[i].reset_token_expiry == s0.users@[i].reset_token_expiry);
            assert(store.users@[i].id == s0.users@[i].id);
            match s0.users@[i].company_id {
                Some(cc) => {
                    assert(s0.has_company(cc));
                    let w = choose|w: int|
                        0 <= w < s0.companies@.len() && s0.companies@[w].id == cc;
                    assert(store.companies@[w].id == cc);
                },
                None => {},
            }
        }
        assert forall|i: int| 0 <= i < store.comments@.len() implies store.has_incident(
            #[trigger] store.comments@[i].incident_id,
        ) by {
            assert(s0.has_incident(s0.comments@[i].incident_id));
        }
        assert forall|i: int| 0 <= i < store.attachments@.len() implies ((
        #[trigger] store.attachments@[i].incident_id) matches Some(n) ==> store.has_incident(n))
            && ((store.attachments@[i].comment_id) matches Some(n2) ==> store.has_comment(
            n2,
        )) by {
            match s0.attachments@[i].incident_id {
                Some(n) => {
                    assert(s0.has_incident(n));
                },
                None => {},
            }
            match s0.attachments@[i].comment_id {
                Some(n2) => {
                    assert(s0.has_comment(n2));
                },
                None => {},
            }
        }
        assert(store.wf());
    }
    Ok(result)
}

} // verus!
