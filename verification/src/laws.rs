use vstd::prelude::*;

use crate::auth::{
    spec_first_token_index, spec_reset_applied, spec_some_user_holds_token, spec_token_match,
    RESET_TOKEN_TTL_SECONDS,
};
use crate::cascade::{
    spec_attachment_kept, spec_clear_assignee, spec_comment_doomed, spec_incident_id_doomed,
    spec_selects, IncidentSelector,
};
use crate::companies::spec_deactivated_member;
use crate::entities::{AccountStatus, Attachment, Comment, Company, Incident, User};
use crate::incidents::{spec_list_admits, IncidentQuery};
use crate::scope::spec_incident_visible;
use crate::store::Store;

verus! {

/// Law: the tenant/role scoper denies every row outside an actor's
/// computed scope. A row the scope does not admit never appears in the
/// actor's incident list, whatever ad-hoc filters the request carries; a
/// by-id read of such a row answers forbidden or not-found by the contract
/// of `get_incident_by_id`, never the data.
pub proof fn lemma_scoper_denies_out_of_scope(
    store: Store,
    actor: User,
    q: IncidentQuery,
    inc: Incident,
)
    requires
        !spec_incident_visible(actor, inc),
    ensures
        !store.incidents@.filter((|i: Incident| spec_list_admits(actor, q, i))).contains(inc),
{
    let pred = |i: Incident| spec_list_admits(actor, q, i);
    let flt = store.incidents@.filter(pred);
    if flt.contains(inc) {
        let j = choose|j: int| 0 <= j < flt.len() && flt[j] == inc;
        store.incidents@.lemma_filter_pred(pred, j);
        assert(spec_list_admits(actor, q, inc));
        assert(false);
    }
}

/// Law: deleting a company leaves no residue. After the cascade no
/// incident or company row carries the tenant's id, no user row belongs to
/// it, no comment references an incident the tenant owned, and no
/// attachment references such an incident or one of its comments.
pub proof fn lemma_company_cascade_leaves_no_residue(s0: Store, s1: Store, cid: i32)
    requires
        s1.incidents@ == s0.incidents@.filter(
            (|inc: Incident| !spec_selects(IncidentSelector::ByCompany(cid), inc)),
        ),
        s1.comments@ == s0.comments@.filter(
            (|c: Comment| !spec_comment_doomed(s0.incidents@, IncidentSelector::ByCompany(cid), c)),
        ),
        s1.attachments@ == s0.attachments@.filter(
            (|a: Attachment| spec_attachment_kept(
                s0.incidents@,
                s0.comments@,
                IncidentSelector::ByCompany(cid),
                a,
            )),
        ),
        s1.users@ == s0.users@.filter((|u: User| u.company_id != Some(cid))),
        s1.companies@ == s0.companies@.filter((|c: Company| c.id != cid)),
    ensures
        forall|k: int| 0 <= k < s1.incidents@.len() ==> (#[trigger] s1.incidents@[k]).company_id != cid,
        forall|k: int| 0 <= k < s1.users@.len() ==> (#[trigger] s1.users@[k]).company_id != Some(cid),
        forall|k: int| 0 <= k < s1.companies@.len() ==> (#[trigger] s1.companies@[k]).id != cid,
        forall|k: int|
            0 <= k < s1.comments@.len() ==> !spec_incident_id_doomed(
                s0.incidents@,
                IncidentSelector::ByCompany(cid),
                (#[trigger] s1.comments@[k]).incident_id,
            ),
        forall|k: int|
            0 <= k < s1.attachments@.len() ==> spec_attachment_kept(
                s0.incidents@,
                s0.comments@,
                IncidentSelector::ByCompany(cid),
                #[trigger] s1.attachments@[k],
            ),
{
    let sel = IncidentSelector::ByCompany(cid);
    let pi = |inc: Incident| !spec_selects(sel, inc);
    let pc = |c: Comment| !spec_comment_doomed(s0.incidents@, sel, c);
    let pa = |a: Attachment| spec_attachment_kept(s0.incidents@, s0.comments@, sel, a);
    let pu = |u: User| u.company_id != Some(cid);
    let pcom = |c: Company| c.id != cid;
    assert forall|k: int|
        0 <= k < s1.incidents@.len() implies (#[trigger] s1.incidents@[k]).company_id != cid by {
        s0.incidents@.lemma_filter_pred(pi, k);
    }
    assert forall|k: int|
        0 <= k < s1.users@.len() implies (#[trigger] s1.users@[k]).company_id != Some(cid) by {
        s0.users@.lemma_filter_pred(pu, k);
    }
    assert forall|k: int|
        0 <= k < s1.companies@.len() implies (#[trigger] s1.companies@[k]).id != cid by {
        s0.companies@.lemma_filter_pred(pcom, k);
    }
    assert forall|k: int|
        0 <= k < s1.comments@.len() implies !spec_incident_id_doomed(
        s0.incidents@,
        sel,
        (#[trigger] s1.comments@[k]).incident_id,
    ) by {
        s0.comments@.lemma_filter_pred(pc, k);
    }
    assert forall|k: int|
        0 <= k < s1.attachments@.len() implies spec_attachment_kept(
        s0.incidents@,
        s0.comments@,
        sel,
        #[trigger] s1.attachments@[k],
    ) by {
        s0.attachments@.lemma_filter_pred(pa, k);
    }
}

/// Law: deleting a user spares the incidents merely assigned to them —
/// each survives with the assignment cleared — while every incident the
/// user reported disappears, and afterwards no incident is assigned to the
/// deleted user.
pub proof fn lemma_user_delete_spares_assigned_removes_reported(
    s0: Store,
    s1: Store,
    uid: i32,
    inc: Incident,
)
    requires
        s0.wf(),
        s0.incidents@.contains(inc),
        s1.incidents@ == s0.incidents@.filter((|i: Incident| i.reporter_id != uid)).map_values(
            (|i: Incident| spec_clear_assignee(i, uid)),
        ),
        s1.comments@ == s0.comments@.filter(
            (|c: Comment| !spec_comment_doomed(
                s0.incidents@,
                IncidentSelector::ByReporter(uid),
                c,
            )),
        ),
        s1.attachments@ == s0.attachments@.filter(
            (|a: Attachment| spec_attachment_kept(
                s0.incidents@,
                s0.comments@,
                IncidentSelector::ByReporter(uid),
                a,
            )),
        ),
    ensures
        inc.reporter_id != uid ==> s1.incidents@.contains(spec_clear_assignee(inc, uid)),
        inc.reporter_id == uid ==> forall|k: int|
            0 <= k < s1.incidents@.len() ==> (#[trigger] s1.incidents@[k]).id != inc.id,
        forall|k: int|
            0 <= k < s1.incidents@.len() ==> (#[trigger] s1.incidents@[k]).assignee_id != Some(uid),
        inc.reporter_id == uid ==> forall|k: int|
            0 <= k < s1.comments@.len() ==> (#[trigger] s1.comments@[k]).incident_id != inc.id,
        inc.reporter_id == uid ==> forall|k: int|
            0 <= k < s1.attachments@.len() ==> (#[trigger] s1.attachments@[k]).incident_id != Some(
                inc.id,
            ),
{
    let p = |i: Incident| i.reporter_id != uid;
    let f = |i: Incident| spec_clear_assignee(i, uid);
    let flt = s0.incidents@.filter(p);
    if inc.reporter_id != uid {
        crate::seq_lemmas::lemma_filter_keeps(s0.incidents@, p, inc);
        let j = choose|j: int| 0 <= j < flt.len() && flt[j] == inc;
        assert(s1.incidents@[j] == f(inc));
        assert(s1.incidents@.contains(f(inc)));
    }
    if inc.reporter_id == uid {
        assert forall|k: int|
            0 <= k < s1.incidents@.len() implies (#[trigger] s1.incidents@[k]).id != inc.id by {
            s0.incidents@.lemma_filter_pred(p, k);
            let row = flt[k];
            assert(s1.incidents@[k] == f(row));
            assert(s1.incidents@[k].id == row.id);
            assert(row.reporter_id != uid);
            if row.id == inc.id {
                // two rows of the original store share an id only if equal
                assert(flt.contains(row));
                s0.incidents@.lemma_filter_contains_rev(p, row);
                let a = choose|a: int| 0 <= a < s0.incidents@.len() && s0.incidents@[a] == row;
                let b = choose|b: int| 0 <= b < s0.incidents@.len() && s0.incidents@[b] == inc;
                assert(a == b);
                assert(false);
            }
        }
    }
    assert forall|k: int|
        0 <= k < s1.incidents@.len() implies (#[trigger] s1.incidents@[k]).assignee_id != Some(
        uid,
    ) by {
        assert(s1.incidents@[k] == f(flt[k]));
    }
    let sel = IncidentSelector::ByReporter(uid);
    let pc = |c: Comment| !spec_comment_doomed(s0.incidents@, sel, c);
    let pa = |a: Attachment| spec_attachment_kept(s0.incidents@, s0.comments@, sel, a);
    if inc.reporter_id == uid {
        let w = choose|w: int| 0 <= w < s0.incidents@.len() && s0.incidents@[w] == inc;
        assert forall|k: int|
            0 <= k < s1.comments@.len() implies (#[trigger] s1.comments@[k]).incident_id
            != inc.id by {
            s0.comments@.lemma_filter_pred(pc, k);
            if s1.comments@[k].incident_id == inc.id {
                assert(crate::cascade::spec_incident_id_doomed(s0.incidents@, sel, inc.id));
            }
        }
        assert forall|k: int|
            0 <= k < s1.attachments@.len() implies (#[trigger] s1.attachments@[k]).incident_id
            != Some(inc.id) by {
            s0.attachments@.lemma_filter_pred(pa, k);
            if s1.attachments@[k].incident_id == Some(inc.id) {
                assert(crate::cascade::spec_incident_id_doomed(s0.incidents@, sel, inc.id));
            }
        }
    }
}

/// Law: a password-reset token is single-use. When the account that held
/// the token (and no other) has had a successful reset applied, no account
/// holds the token any more, so presenting it again fails as
/// invalid-or-expired by the contract of `reset_password`.
pub proof fn lemma_reset_token_single_use(s0: Store, s1: Store, tok: Seq<char>, m: int)
    requires
        spec_first_token_index(s0.users@, tok, m),
        forall|k: int|
            0 <= k < s0.users@.len() && k != m ==> !spec_token_match(#[trigger] s0.users@[k], tok),
        s1.users@ == s0.users@.update(m, s1.users@[m]),
        spec_reset_applied(s0.users@[m], s1.users@[m]),
    ensures
        !spec_some_user_holds_token(s1.users@, tok),
{
    assert forall|i: int|
        0 <= i < s1.users@.len() implies !spec_token_match(#[trigger] s1.users@[i], tok) by {
        if i != m {
            assert(s1.users@[i] == s0.users@[i]);
        } else {
            assert(s1.users@[m].reset_token is None);
        }
    }
}

/// Law: the reset window is one hour, sharp. For a token stamped at
/// issuance with its one-hour expiry, the contract of `reset_password`
/// reads it as expired one second past the hour and as live at 59
/// minutes: the expiry comparison that drives its error and success
/// clauses goes the required way at both instants.
pub proof fn lemma_reset_window_boundary(s: Store, tok: Seq<char>, m: int, issued: i64)
    requires
        spec_first_token_index(s.users@, tok, m),
        s.users@[m].reset_token_expiry == Some((issued + RESET_TOKEN_TTL_SECONDS) as i64),
        0 <= issued <= i64::MAX - RESET_TOKEN_TTL_SECONDS - 1,
    ensures
        s.users@[m].reset_token_expiry matches Some(e) && e < issued + RESET_TOKEN_TTL_SECONDS + 1,
        !(s.users@[m].reset_token_expiry matches Some(e) && e < issued + 3540),
{
}

/// Law: status propagation is asymmetric. Deactivating a company forces
/// every member account inactive; a later reactivation of the company,
/// which by the contract of `update_company` rewrites no user row, leaves
/// each of those members inactive.
pub proof fn lemma_status_propagation_asymmetric(s0: Store, s1: Store, s2: Store, cid: i32)
    requires
        s1.users@ == s0.users@.map_values((|u: User| spec_deactivated_member(u, cid))),
        s2.users@ == s1.users@,
    ensures
        forall|k: int|
            0 <= k < s1.users@.len() ==> ((#[trigger] s1.users@[k]).company_id == Some(cid)
                ==> s1.users@[k].status == AccountStatus::Inactive),
        forall|k: int|
            0 <= k < s2.users@.len() ==> ((#[trigger] s2.users@[k]).company_id == Some(cid)
                ==> s2.users@[k].status == AccountStatus::Inactive),
{
    let f = |u: User| spec_deactivated_member(u, cid);
    assert forall|k: int|
        0 <= k < s1.users@.len() implies ((#[trigger] s1.users@[k]).company_id == Some(cid)
        ==> s1.users@[k].status == AccountStatus::Inactive) by {
        assert(s1.users@[k] == f(s0.users@[k]));
    }
}


/// Law: a well-formed store holds no orphan rows. Every comment references
/// an incident that exists, and every attachment references an existing
/// incident and, when tied to one, an existing comment. Each mutating
/// operation of the library ensures the store stays well-formed, so this
/// holds in every reachable state.
pub proof fn lemma_no_orphans(s: Store)
    requires
        s.wf(),
    ensures
        forall|k: int|
            0 <= k < s.comments@.len() ==> s.has_incident(#[trigger] s.comments@[k].incident_id),
        forall|k: int|
            0 <= k < s.attachments@.len() ==> ((#[trigger] s.attachments@[k].incident_id)
                matches Some(n) ==> s.has_incident(n)),
        forall|k: int|
            0 <= k < s.attachments@.len() ==> ((#[trigger] s.attachments@[k].comment_id)
                matches Some(n) ==> s.has_comment(n)),
{
}

} // verus!
