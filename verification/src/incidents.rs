use vstd::prelude::*;
use vstd::pervasive::VecAdditionalExecFns;

use crate::codes::{make_ticket_code, spec_contains_seq, spec_ticket_code, str_contains};
use crate::entities::{Attachment, Incident, IncidentStatus, Priority, Role, User};
use crate::error::AppError;
use crate::scope::{incident_visible, spec_incident_visible};
use crate::seq_lemmas::{lemma_filter_take_step, lemma_take_all};
use crate::store::Store;

verus! {

/// List-query filters, as the incident list endpoint accepts them. A
/// `company_id` filter is honoured only for a superadmin; the other
/// roles' tenant scope overrides it.
pub struct IncidentQuery {
    pub company_id: Option<i32>,
    pub status: Option<Vec<IncidentStatus>>,
    pub priority: Option<Priority>,
    pub assignee_id: Option<i32>,
    pub ticket_code: Option<String>,
}

/// The optional-field update payload for one incident. The tenant, the
/// reporter, the type and the ticket code are immutable.
pub struct UpdateIncidentRequest {
    pub title: Option<String>,
    pub description: Option<String>,
    pub status: Option<IncidentStatus>,
    pub priority: Option<Priority>,
    pub assignee_id: Option<i32>,
}

/// What a creation request carries once the transport has parsed it.
pub struct NewIncident {
    pub title: String,
    pub description: String,
    pub priority: Priority,
    pub type_id: Option<i32>,
    pub company_id: Option<i32>,
    pub attachment: Option<NewAttachment>,
}

/// A stored file accompanying a new incident or comment.
pub struct NewAttachment {
    pub file_path: String,
    pub original_name: String,
    pub mime_type: String,
}

/// The ad-hoc list filters, independent of role.
pub open spec fn spec_filter_admits(q: IncidentQuery, inc: Incident) -> bool {
    &&& (q.status matches Some(v) ==> v@.contains(inc.status))
    &&& (q.priority matches Some(p) ==> inc.priority == p)
    &&& (q.assignee_id matches Some(a) ==> inc.assignee_id == Some(a))
    &&& (q.ticket_code matches Some(code) ==> (inc.ticket_code matches Some(tc)
        && spec_contains_seq(tc@, code@)))
}

/// The optional tenant narrowing a superadmin may request.
pub open spec fn spec_company_filter_admits(actor: User, q: IncidentQuery, inc: Incident) -> bool {
    actor.role == Role::Superadmin ==> (q.company_id matches Some(cid) ==> inc.company_id == cid)
}

/// A row appears in an actor's incident list when the actor's scope admits
/// it and every requested filter does too.
pub open spec fn spec_list_admits(actor: User, q: IncidentQuery, inc: Incident) -> bool {
    &&& spec_incident_visible(actor, inc)
    &&& spec_company_filter_admits(actor, q, inc)
    &&& spec_filter_admits(q, inc)
}

/// The tenant a new incident is filed under: administrative roles may name
/// one, otherwise the reporter's own tenant; 0 when neither names one.
pub open spec fn spec_new_incident_company(actor: User, requested: Option<i32>) -> i32 {
    match actor.role {
        Role::Superadmin | Role::Agent => match requested {
            Some(c) => c,
            None => match actor.company_id {
                Some(c) => c,
                None => 0,
            },
        },
        _ => match actor.company_id {
            Some(c) => c,
            None => 0,
        },
    }
}

/// An update payload applied to one row: absent fields keep their value,
/// and the update instant is stamped.
pub open spec fn spec_patched(inc: Incident, ch: UpdateIncidentRequest, now: i64) -> Incident {
    Incident {
        title: match ch.title {
            Some(t) => t,
            None => inc.title,
        },
        description: match ch.description {
            Some(d) => d,
            None => inc.description,
        },
        status: match ch.status {
            Some(s) => s,
            None => inc.status,
        },
        priority: match ch.priority {
            Some(p) => p,
            None => inc.priority,
        },
        assignee_id: match ch.assignee_id {
            Some(a) => Some(a),
            None => inc.assignee_id,
        },
        updated_at: now,
        ..inc
    }
}

/// Membership test over a status filter list.
fn status_list_contains(v: &Vec<IncidentStatus>, s: IncidentStatus) -> (r: bool)
    ensures
        r == v@.contains(s),
{
    let n = v.len();
    for i in 0..n
        invariant
            n == v@.len(),
            forall|k: int| 0 <= k < i ==> v@[k] != s,
    {
        if v[i] == s {
            assert(v@[i as int] == s);
            return true;
        }
    }
    false
}

/// Tests one row against the actor's scope and the requested filters.
fn list_admits(actor: &User, q: &IncidentQuery, inc: &Incident) -> (r: bool)
    ensures
        r == spec_list_admits(*actor, *q, *inc),
{
    if !incident_visible(actor, inc) {
        return false;
    }
    if actor.role == Role::Superadmin {
        match q.company_id {
            Some(cid) => {
                if inc.company_id != cid {
                    return false;
                }
            },
            None => {},
        }
    }
    match &q.status {
        Some(v) => {
            if !status_list_contains(v, inc.status) {
                return false;
            }
        },
        None => {},
    }
    match q.priority {
        Some(p) => {
            if inc.priority != p {
                return false;
            }
        },
        None => {},
    }
    match q.assignee_id {
        Some(a) => {
            let matches_assignee = match inc.assignee_id {
                Some(b) => b == a,
                None => false,
            };
            if !matches_assignee {
                return false;
            }
        },
        None => {},
    }
    match &q.ticket_code {
        Some(code) => {
            match &inc.ticket_code {
                Some(tc) => {
                    if !str_contains(tc.as_str(), code.as_str()) {
                        return false;
                    }
                },
                None => {
                    return false;
                },
            }
        },
        None => {},
    }
    true
}

/// Lists the incidents the actor may see, narrowed by the request's
/// filters. A role outside the scope table is refused outright.
pub fn get_all_incidents(store: &Store, actor: &User, q: &IncidentQuery) -> (r: Result<
    Vec<Incident>,
    AppError,
>)
    ensures
        r is Ok <==> actor.role != Role::CompanyAdmin,
        actor.role == Role::CompanyAdmin ==> r == Err::<Vec<Incident>, AppError>(
            AppError::Forbidden,
        ),
        r matches Ok(v) ==> v@ == store.incidents@.filter(
            (|inc: Incident| spec_list_admits(*actor, *q, inc)),
        ),
{
    if actor.role == Role::CompanyAdmin {
        return Err(AppError::Forbidden);
    }
    let ghost pred = |inc: Incident| spec_list_admits(*actor, *q, inc);
    let mut out: Vec<Incident> = Vec::new();
    let n = store.incidents.len();
    for i in 0..n
        invariant
            n == store.incidents@.len(),
            pred == (|inc: Incident| spec_list_admits(*actor, *q, inc)),
            out@ == store.incidents@.take(i as int).filter(pred),
    {
        proof {
            lemma_filter_take_step(store.incidents@, pred, i as int);
        }
        if list_admits(actor, q, &store.incidents[i]) {
            out.push(store.incidents[i].clone());
        }
    }
    proof {
        lemma_take_all(store.incidents@);
    }
    Ok(out)
}

/// Reads one incident by id: missing rows are not found, rows outside the
/// actor's scope are forbidden — never returned.
pub fn get_incident_by_id(store: &Store, actor: &User, id: i32) -> (r: Result<Incident, AppError>)
    requires
        store.wf(),
    ensures
        r is Ok <==> store.has_incident(id) && spec_incident_visible(
            *actor,
            store.incident_by_id(id),
        ),
        !store.has_incident(id) ==> r == Err::<Incident, AppError>(AppError::NotFound),
        store.has_incident(id) && !spec_incident_visible(*actor, store.incident_by_id(id)) ==> r
            == Err::<Incident, AppError>(AppError::Forbidden),
        r matches Ok(inc) ==> inc == store.incident_by_id(id),
{
    match store.find_incident(id) {
        None => Err(AppError::NotFound),
        Some(inc) => {
            proof {
                store.lemma_incident_found_is_unique(*inc);
            }
            if incident_visible(actor, inc) {
                Ok(inc.clone())
            } else {
                Err(AppError::Forbidden)
            }
        },
    }
}

/// The attachments hanging off one incident, in store order.
pub fn attachments_of_incident(store: &Store, id: i32) -> (r: Vec<Attachment>)
    ensures
        r@ == store.attachments@.filter((|a: Attachment| a.incident_id == Some(id))),
{
    let ghost pred = |a: Attachment| a.incident_id == Some(id);
    let mut out: Vec<Attachment> = Vec::new();
    let n = store.attachments.len();
    for i in 0..n
        invariant
            n == store.attachments@.len(),
            pred == (|a: Attachment| a.incident_id == Some(id)),
            out@ == store.attachments@.take(i as int).filter(pred),
    {
        proof {
            lemma_filter_take_step(store.attachments@, pred, i as int);
        }
        let of_incident = match store.attachments[i].incident_id {
            Some(x) => x == id,
            None => false,
        };
        if of_incident {
            out.push(store.attachments[i].clone());
        }
    }
    proof {
        lemma_take_all(store.attachments@);
    }
    out
}

/// Scans for a ticket code already in use.
fn ticket_code_taken(store: &Store, code: &String) -> (r: bool)
    ensures
        r == store.has_ticket_code(code@),
{
    let n = store.incidents.len();
    for i in 0..n
        invariant
            n == store.incidents@.len(),
            forall|k: int|
                0 <= k < i ==> !((#[trigger] store.incidents@[k].ticket_code) matches Some(c)
                    && c@ == code@),
    {
        let taken = match &store.incidents[i].ticket_code {
            Some(c) => c.eq(code),
            None => false,
        };
        if taken {
            return true;
        }
    }
    false
}

/// Files a new incident for the actor: the title and a type are required;
/// the tenant comes from the actor's context (an administrative role may
/// name one); the ticket code is derived from the tenant and the creation
/// instant and must be unused; an accompanying file becomes an attachment
/// row when the id space allows it, exactly as the incident does.
pub fn create_incident(store: &mut Store, actor: &User, input: NewIncident, now: i64) -> (r:
    Result<Incident, AppError>)
    requires
        old(store).wf(),
        now >= 0,
    ensures
        final(store).wf(),
        r matches Err(e) ==> *final(store) == *old(store) && (e == AppError::Validation || e
            == AppError::InternalError),
        input.title@.len() == 0 ==> r == Err::<Incident, AppError>(AppError::Validation),
        input.title@.len() > 0 && input.type_id is None ==> r == Err::<Incident, AppError>(
            AppError::Validation,
        ),
        input.title@.len() > 0 && input.type_id is Some && spec_new_incident_company(
            *actor,
            input.company_id,
        ) < 0 ==> r == Err::<Incident, AppError>(AppError::Validation),
        input.title@.len() > 0 && input.type_id is Some && spec_new_incident_company(
            *actor,
            input.company_id,
        ) >= 0 && old(store).has_ticket_code(
            spec_ticket_code(spec_new_incident_company(*actor, input.company_id) as int, now as int),
        ) ==> r == Err::<Incident, AppError>(AppError::Validation),
        input.title@.len() > 0 && input.type_id is Some && spec_new_incident_company(
            *actor,
            input.company_id,
        ) >= 0 && !old(store).has_ticket_code(
            spec_ticket_code(spec_new_incident_company(*actor, input.company_id) as int, now as int),
        ) && old(store).next_incident_id < i32::MAX ==> r is Ok,
        r matches Ok(inc) ==> {
            let cid = spec_new_incident_company(*actor, input.company_id);
            &&& inc.id == old(store).next_incident_id
            &&& inc.ticket_code matches Some(tc) && tc@ == spec_ticket_code(
                cid as int,
                now as int,
            )
            &&& inc.title == input.title
            &&& inc.description == input.description
            &&& inc.status == IncidentStatus::Open
            &&& inc.priority == input.priority
            &&& inc.reporter_id == actor.id
            &&& inc.assignee_id is None
            &&& inc.company_id == cid
            &&& Some(inc.type_id) == input.type_id
            &&& inc.created_at == now && inc.updated_at == now
            &&& final(store).incidents@ == old(store).incidents@.push(inc)
            &&& final(store).next_incident_id == old(store).next_incident_id + 1
            &&& final(store).comments@ == old(store).comments@
            &&& final(store).users@ == old(store).users@
            &&& final(store).companies@ == old(store).companies@
            &&& final(store).ticket_types@ == old(store).ticket_types@
            &&& (input.attachment matches Some(na) ==> old(store).next_attachment_id < i32::MAX
                ==> {
                &&& final(store).attachments@.len() == old(store).attachments@.len() + 1
                &&& final(store).attachments@.last() == (Attachment {
                    id: old(store).next_attachment_id,
                    file_path: na.file_path,
                    original_name: na.original_name,
                    mime_type: na.mime_type,
                    incident_id: Some(inc.id),
                    comment_id: None,
                    created_at: now,
                    updated_at: now,
                })
                &&& final(store).attachments@.drop_last() == old(store).attachments@
            })
            &&& (!(input.attachment is Some) ==> final(store).attachments@ == old(
                store,
            ).attachments@)
        },
{
    let ghost s0 = *store;
    if input.title.unicode_len() == 0 {
        return Err(AppError::Validation);
    }
    let type_id = match input.type_id {
        Some(t) => t,
        None => {
            return Err(AppError::Validation);
        },
    };
    let company_id = match actor.role {
        Role::Superadmin | Role::Agent => match input.company_id {
            Some(c) => c,
            None => match actor.company_id {
                Some(c) => c,
                None => 0,
            },
        },
        _ => match actor.company_id {
            Some(c) => c,
            None => 0,
        },
    };
    if company_id < 0 {
        return Err(AppError::Validation);
    }
    let code = make_ticket_code(company_id, now);
    if ticket_code_taken(store, &code) {
        return Err(AppError::Validation);
    }
    if store.next_incident_id == i32::MAX {
        return Err(AppError::InternalError);
    }
    let inc = Incident {
        id: store.next_incident_id,
        ticket_code: Some(code),
        title: input.title,
        description: input.description,
        status: IncidentStatus::Open,
        priority: input.priority,
        reporter_id: actor.id,
        assignee_id: None,
        company_id,
        type_id,
        created_at: now,
        updated_at: now,
    };
    let result = inc.clone();
    store.incidents.push(inc);
    store.next_incident_id = store.next_incident_id + 1;
    proof {
        assert forall|i: int, j: int|
            0 <= i < j < store.incidents@.len() implies store.incidents@[i].id
            != store.incidents@[j].id by {
            if j == store.incidents@.len() - 1 {
                assert(store.incidents@[i] == s0.incidents@[i]);
            }
        }
        assert forall|i: int, j: int|
            #![trigger store.incidents@[i].ticket_code, store.incidents@[j].ticket_code]
            0 <= i < j < store.incidents@.len() implies !(store.incidents@[i].ticket_code
            matches Some(a) && store.incidents@[j].ticket_code matches Some(b) && a@ == b@) by {
            if j == store.incidents@.len() - 1 {
                assert(store.incidents@[i] == s0.incidents@[i]);
            }
        }
        assert forall|i: int| 0 <= i < store.comments@.len() implies store.has_incident(
            #[trigger] store.comments@[i].incident_id,
        ) by {
            assert(s0.has_incident(s0.comments@[i].incident_id));
            let m = choose|m: int|
                0 <= m < s0.incidents@.len() && s0.incidents@[m].id == s0.comments@[i].incident_id;
            assert(store.incidents@[m].id == s0.comments@[i].incident_id);
        }
        assert forall|i: int| 0 <= i < store.attachments@.len() implies ((
        #[trigger] store.attachments@[i].incident_id) matches Some(n) ==> store.has_incident(n))
            && ((store.attachments@[i].comment_id) matches Some(n2) ==> store.has_comment(
            n2,
        )) by {
            match s0.attachments@[i].incident_id {
                Some(n) => {
                    assert(s0.has_incident(n));
                    let m = choose|m: int|
                        0 <= m < s0.incidents@.len() && s0.incidents@[m].id == n;
                    assert(store.incidents@[m].id == n);
                },
                None => {},
            }
            match s0.attachments@[i].comment_id {
                Some(n2) => {
                    assert(s0.has_comment(n2));
                },
                None => {},
            }
        }
        assert(store.wf());
    }
    let ghost s1 = *store;
    match input.attachment {
        Some(na) => {
            if store.next_attachment_id < i32::MAX {
                let att = Attachment {
                    id: store.next_attachment_id,
                    file_path: na.file_path,
                    original_name: na.original_name,
                    mime_type: na.mime_type,
                    incident_id: Some(result.id),
                    comment_id: None,
                    created_at: now,
                    updated_at: now,
                };
                store.attachments.push(att);
                store.next_attachment_id = store.next_attachment_id + 1;
                proof {
                    assert forall|i: int, j: int|
                        0 <= i < j < store.attachments@.len() implies store.attachments@[i].id
                        != store.attachments@[j].id by {
                        if j == store.attachments@.len() - 1 {
                            assert(store.attachments@[i] == s1.attachments@[i]);
                        }
                    }
                    assert forall|i: int| 0 <= i < store.attachments@.len() implies ((
                    #[trigger] store.attachments@[i].incident_id) matches Some(n)
                        ==> store.has_incident(n)) && ((store.attachments@[i].comment_id)
                        matches Some(n2) ==> store.has_comment(n2)) by {
                        if i < store.attachments@.len() - 1 {
                            assert(store.attachments@[i] == s1.attachments@[i]);
                            match s1.attachments@[i].incident_id {
                                Some(n) => {
                                    assert(s1.has_incident(n));
                                    let w = choose|w: int|
                                        0 <= w < s1.incidents@.len() && s1.incidents@[w].id == n;
                                    assert(store.incidents@[w].id == n);
                                },
                                None => {},
                            }
                            match s1.attachments@[i].comment_id {
                                Some(n2) => {
                                    assert(s1.has_comment(n2));
                                    let w = choose|w: int|
                                        0 <= w < s1.comments@.len() && s1.comments@[w].id == n2;
                                    assert(store.comments@[w].id == n2);
                                },
                                None => {},
                            }
                        } else {
                            assert(s1.incidents@[s1.incidents@.len() - 1].id == result.id);
                            assert(s1.has_incident(result.id));
                            let w = choose|w: int|
                                0 <= w < s1.incidents@.len() && s1.incidents@[w].id == result.id;
                            assert(store.incidents@[w].id == result.id);
                            assert(store.has_incident(result.id));
                        }
                    }
                    assert(store.wf());
                    assert(store.attachments@.drop_last() =~= s1.attachments@);
                }
            }
        },
        None => {},
    }
    Ok(result)
}

/// The index of the incident row carrying this id, if any.
fn find_incident_index(store: &Store, id: i32) -> (r: Option<usize>)
    ensures
        match r {
            Some(m) => m < store.incidents@.len() && store.incidents@[m as int].id == id,
            None => !store.has_incident(id),
        },
{
    let n = store.incidents.len();
    for i in 0..n
        invariant
            n == store.incidents@.len(),
            forall|k: int| 0 <= k < i ==> store.incidents@[k].id != id,
    {
        if store.incidents[i].id == id {
            return Some(i);
        }
    }
    None
}

/// Rewrites one incident with the provided fields. The row must exist and
/// lie inside the actor's scope; the tenant, reporter, type and code are
/// untouched; the update instant is stamped.
pub fn update_incident(
    store: &mut Store,
    actor: &User,
    id: i32,
    changes: UpdateIncidentRequest,
    now: i64,
) -> (r: Result<Incident, AppError>)
    requires
        old(store).wf(),
    ensures
        final(store).wf(),
        r is Ok <==> old(store).has_incident(id) && spec_incident_visible(
            *actor,
            old(store).incident_by_id(id),
        ),
        !old(store).has_incident(id) ==> r == Err::<Incident, AppError>(AppError::NotFound)
            && *final(store) == *old(store),
        old(store).has_incident(id) && !spec_incident_visible(
            *actor,
            old(store).incident_by_id(id),
        ) ==> r == Err::<Incident, AppError>(AppError::Forbidden) && *final(store) == *old(store),
        r matches Ok(inc) ==> {
            &&& inc == spec_patched(old(store).incident_by_id(id), changes, now)
            &&& final(store).incidents@.len() == old(store).incidents@.len()
            &&& forall|k: int|
                0 <= k < old(store).incidents@.len() ==> #[trigger] final(store).incidents@[k]
                    == (if old(store).incidents@[k].id == id {
                    spec_patched(old(store).incidents@[k], changes, now)
                } else {
                    old(store).incidents@[k]
                })
            &&& *final(store) == Store { incidents: final(store).incidents, ..*old(store) }
        },
{
    let ghost s0 = *store;
    let m = match find_incident_index(store, id) {
        Some(m) => m,
        None => {
            return Err(AppError::NotFound);
        },
    };
    proof {
        assert(store.incidents@.contains(store.incidents@[m as int]));
        store.lemma_incident_found_is_unique(store.incidents@[m as int]);
    }
    if !incident_visible(actor, &store.incidents[m]) {
        return Err(AppError::Forbidden);
    }
    let mut inc = store.incidents[m].clone();
    match changes.title {
        Some(ref t) => {
            inc.title = t.clone();
        },
        None => {},
    }
    match changes.description {
        Some(ref d) => {
            inc.description = d.clone();
        },
        None => {},
    }
    match changes.status {
        Some(s) => {
            inc.status = s;
        },
        None => {},
    }
    match changes.priority {
        Some(p) => {
            inc.priority = p;
        },
        None => {},
    }
    match changes.assignee_id {
        Some(a) => {
            inc.assignee_id = Some(a);
        },
        None => {},
    }
    inc.updated_at = now;
    let result = inc.clone();
    store.incidents.set(m, inc);
    proof {
        assert(result == spec_patched(s0.incidents@[m as int], changes, now));
        assert forall|k: int|
            0 <= k < store.incidents@.len() implies #[trigger] store.incidents@[k] == (if s0
            .incidents@[k].id == id {
            spec_patched(s0.incidents@[k], changes, now)
        } else {
            s0.incidents@[k]
        }) by {
            if k != m {
                assert(store.incidents@[k] == s0.incidents@[k]);
                if s0.incidents@[k].id == id {
                    assert(s0.incidents@[m as int].id == id);
                    assert(false);
                }
            }
        }
        assert(store.wf()) by {
            assert forall|i: int, j: int|
                0 <= i < j < store.incidents@.len() implies store.incidents@[i].id
                != store.incidents@[j].id by {
                assert(store.incidents@[i].id == s0.incidents@[i].id);
                assert(store.incidents@[j].id == s0.incidents@[j].id);
            }
            assert forall|i: int, j: int|
                #![trigger store.incidents@[i].ticket_code, store.incidents@[j].ticket_code]
                0 <= i < j < store.incidents@.len() implies !(store.incidents@[i].ticket_code
                matches Some(a) && store.incidents@[j].ticket_code matches Some(b) && a@
                == b@) by {
                assert(store.incidents@[i].ticket_code == s0.incidents@[i].ticket_code);
                assert(store.incidents@[j].ticket_code == s0.incidents@[j].ticket_code);
            }
            assert forall|i: int|
                0 <= i < store.incidents@.len() implies 1 <= (#[trigger] store.incidents@[i]).id
                < store.next_incident_id && store.incidents@[i].company_id >= 0 by {
                assert(store.incidents@[i].id == s0.incidents@[i].id);
                assert(store.incidents@[i].company_id == s0.incidents@[i].company_id);
            }
            assert forall|i: int| 0 <= i < store.comments@.len() implies store.has_incident(
                #[trigger] store.comments@[i].incident_id,
            ) by {
                assert(s0.has_incident(s0.comments@[i].incident_id));
                let w = choose|w: int|
                    0 <= w < s0.incidents@.len() && s0.incidents@[w].id
                        == s0.comments@[i].incident_id;
                assert(store.incidents@[w].id == s0.comments@[i].incident_id);
            }
            assert forall|i: int| 0 <= i < store.attachments@.len() implies ((
            #[trigger] store.attachments@[i].incident_id) matches Some(n) ==> store.has_incident(
                n,
            )) && ((store.attachments@[i].comment_id) matches Some(n2) ==> store.has_comment(
                n2,
            )) by {
                match s0.attachments@[i].incident_id {
                    Some(n) => {
                        assert(s0.has_incident(n));
                        let w = choose|w: int|
                            0 <= w < s0.incidents@.len() && s0.incidents@[w].id == n;
                        assert(store.incidents@[w].id == n);
                    },
                    None => {},
                }
                match s0.attachments@[i].comment_id {
                    Some(n2) => {
                        assert(s0.has_comment(n2));
                    },
                    None => {},
                }
            }
        }
    }
    Ok(result)
}

} // verus!
