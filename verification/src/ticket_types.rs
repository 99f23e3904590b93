use vstd::prelude::*;
use vstd::pervasive::VecAdditionalExecFns;

use crate::entities::TicketType;
use crate::entities::User;
use crate::error::AppError;
use crate::scope::{is_admin, spec_is_admin};
use crate::store::Store;

verus! {

/// The creation and update payload for a ticket type.
pub struct CreateTicketTypeRequest {
    pub name: String,
    pub description: Option<String>,
    pub sla_response: i32,
    pub sla_resolution: i32,
    pub is_global: bool,
}

/// A ticket type row rewritten by an update payload.
pub open spec fn spec_ticket_type_patched(
    t: TicketType,
    payload: CreateTicketTypeRequest,
    now: i64,
) -> TicketType {
    TicketType {
        name: payload.name,
        description: payload.description,
        sla_response: payload.sla_response,
        sla_resolution: payload.sla_resolution,
        is_global: payload.is_global,
        updated_at: now,
        ..t
    }
}

/// Lists every ticket type; any authenticated role may read them.
pub fn get_all_ticket_types(store: &Store) -> (r: Vec<TicketType>)
    ensures
        r@ == store.ticket_types@,
{
    let mut out: Vec<TicketType> = Vec::new();
    let n = store.ticket_types.len();
    for i in 0..n
        invariant
            n == store.ticket_types@.len(),
            out@ == store.ticket_types@.take(i as int),
    {
        out.push(store.ticket_types[i].clone());
        proof {
            assert(store.ticket_types@.take(i + 1 as int) =~= store.ticket_types@.take(
                i as int,
            ).push(store.ticket_types@[i as int]));
        }
    }
    proof {
        assert(store.ticket_types@.take(n as int) =~= store.ticket_types@);
    }
    out
}

/// Creates a ticket type. Superadmin only.
pub fn create_ticket_type(
    store: &mut Store,
    actor: &User,
    payload: CreateTicketTypeRequest,
    now: i64,
) -> (r: Result<TicketType, AppError>)
    requires
        old(store).wf(),
    ensures
        final(store).wf(),
        r matches Err(e) ==> *final(store) == *old(store) && (e == AppError::Forbidden || e
            == AppError::InternalError),
        !spec_is_admin(*actor) ==> r == Err::<TicketType, AppError>(AppError::Forbidden),
        spec_is_admin(*actor) && old(store).next_ticket_type_id < i32::MAX ==> r is Ok,
        r matches Ok(t) ==> {
            &&& t.id == old(store).next_ticket_type_id
            &&& t.name == payload.name
            &&& t.description == payload.description
            &&& t.sla_response == payload.sla_response
            &&& t.sla_resolution == payload.sla_resolution
            &&& t.is_global == payload.is_global
            &&& t.created_at == now && t.updated_at == now
            &&& final(store).ticket_types@ == old(store).ticket_types@.push(t)
            &&& final(store).next_ticket_type_id == old(store).next_ticket_type_id + 1
            &&& *final(store) == Store {
                ticket_types: final(store).ticket_types,
                next_ticket_type_id: final(store).next_ticket_type_id,
                ..*old(store)
            }
        },
{
    if !is_admin(actor) {
        return Err(AppError::Forbidden);
    }
    if store.next_ticket_type_id == i32::MAX {
        return Err(AppError::InternalError);
    }
    let ghost s0 = *store;
    let t = TicketType {
        id: store.next_ticket_type_id,
        name: payload.name,
        description: payload.description,
        sla_response: payload.sla_response,
        sla_resolution: payload.sla_resolution,
        is_global: payload.is_global,
        created_at: now,
        updated_at: now,
    };
    let result = t.clone();
    store.ticket_types.push(t);
    store.next_ticket_type_id = store.next_ticket_type_id + 1;
    proof {
        assert forall|i: int, j: int|
            0 <= i < j < store.ticket_types@.len() implies store.ticket_types@[i].id
            != store.ticket_types@[j].id by {
            if j == store.ticket_types@.len() - 1 {
                assert(store.ticket_types@[i] == s0.ticket_types@[i]);
            }
        }
        assert(store.wf());
    }
    Ok(result)
}

/// The index of the ticket type row carrying this id, if any.
fn find_ticket_type_index(store: &Store, id: i32) -> (r: Option<usize>)
    ensures
        match r {
            Some(m) => m < store.ticket_types@.len() && store.ticket_types@[m as int].id == id,
            None => !store.has_ticket_type(id),
        },
{
    let n = store.ticket_types.len();
    for i in 0..n
        invariant
            n == store.ticket_types@.len(),
            forall|k: int| 0 <= k < i ==> store.ticket_types@[k].id != id,
    {
        if store.ticket_types[i].id == id {
            return Some(i);
        }
    }
    None
}

/// Rewrites one ticket type. Superadmin only.
pub fn update_ticket_type(
    store: &mut Store,
    actor: &User,
    id: i32,
    payload: CreateTicketTypeRequest,
    now: i64,
) -> (r: Result<TicketType, AppError>)
    requires
        old(store).wf(),
    ensures
        final(store).wf(),
        r matches Err(e) ==> *final(store) == *old(store) && (e == AppError::Forbidden || e
            == AppError::NotFound),
        !spec_is_admin(*actor) ==> r == Err::<TicketType, AppError>(AppError::Forbidden),
        spec_is_admin(*actor) && !old(store).has_ticket_type(id) ==> r == Err::<
            TicketType,
            AppError,
        >(AppError::NotFound),
        r is Ok <==> spec_is_admin(*actor) && old(store).has_ticket_type(id),
        r matches Ok(t) ==> {
            &&& t == spec_ticket_type_patched(old(store).ticket_type_by_id(id), payload, now)
            &&& final(store).ticket_types@.len() == old(store).ticket_types@.len()
            &&& forall|k: int|
                0 <= k < old(store).ticket_types@.len() ==> #[trigger] final(store).ticket_types@[k]
                    == (if old(store).ticket_types@[k].id == id {
                    t
                } else {
                    old(store).ticket_types@[k]
                })
            &&& *final(store) == Store { ticket_types: final(store).ticket_types, ..*old(store) }
        },
{
    if !is_admin(actor) {
        return Err(AppError::Forbidden);
    }
    let m = match find_ticket_type_index(store, id) {
        Some(m) => m,
        None => {
            return Err(AppError::NotFound);
        },
    };
    proof {
        assert(store.ticket_types@.contains(store.ticket_types@[m as int]));
        store.lemma_ticket_type_found_is_unique(store.ticket_types@[m as int]);
    }
    let ghost s0 = *store;
    let mut t = store.ticket_types[m].clone();
    t.name = payload.name;
    t.description = payload.description;
    t.sla_response = payload.sla_response;
    t.sla_resolution = payload.sla_resolution;
    t.is_global = payload.is_global;
    t.updated_at = now;
    let result = t.clone();
    store.ticket_types.set(m, t);
    proof {
        assert(result == spec_ticket_type_patched(s0.ticket_types@[m as int], payload, now));
        assert forall|k: int|
            0 <= k < store.ticket_types@.len() implies #[trigger] store.ticket_types@[k] == (if s0
            .ticket_types@[k].id == id {
            result
        } else {
            s0.ticket_types@[k]
        }) by {
            if k != m {
                assert(store.ticket_types@[k] == s0.ticket_types@[k]);
                if s0.ticket_types@[k].id == id {
                    assert(s0.ticket_types@[m as int].id == id);
                    assert(false);
                }
            }
        }
        assert(store.wf()) by {
            assert forall|i: int, j: int|
                0 <= i < j < store.ticket_types@.len() implies store.ticket_types@[i].id
                != store.ticket_types@[j].id by {
                assert(store.ticket_types@[i].id == s0.ticket_types@[i].id);
                assert(store.ticket_types@[j].id == s0.ticket_types@[j].id);
            }
            assert forall|i: int|
                0 <= i < store.ticket_types@.len() implies 1 <= (
            #[trigger] store.ticket_types@[i]).id < store.next_ticket_type_id by {
                assert(store.ticket_types@[i].id == s0.ticket_types@[i].id);
            }
        }
    }
    Ok(result)
}

} // verus!
