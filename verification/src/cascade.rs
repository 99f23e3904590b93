use vstd::prelude::*;

use crate::entities::{Attachment, Comment, Company, Incident, TicketType, User};
use crate::seq_lemmas::{
    lemma_filter_congruent, lemma_filter_keeps, lemma_filter_preserves_forall,
    lemma_filter_preserves_pairwise, lemma_filter_take_step, lemma_map_take_step,
    lemma_take_all,
};
use crate::error::AppError;
use crate::store::Store;

verus! {

/// The root of a cascade over the incident table. Deleting a company, a
/// ticket type or a user dooms every incident of that company, of that type,
/// or reported by that user; deleting one incident directly dooms that row
/// alone. The dependency graph below the incident is fixed: comments hang
/// off incidents, attachments hang off incidents and comments.
#[derive(Clone, Copy, Debug, PartialEq, Eq, Structural)]
pub enum IncidentSelector {
    ByCompany(i32),
    ByType(i32),
    ByReporter(i32),
    ById(i32),
}

/// Which incident rows a selector dooms.
pub open spec fn spec_selects(sel: IncidentSelector, inc: Incident) -> bool {
    match sel {
        IncidentSelector::ByCompany(cid) => inc.company_id == cid,
        IncidentSelector::ByType(tid) => inc.type_id == tid,
        IncidentSelector::ByReporter(uid) => inc.reporter_id == uid,
        IncidentSelector::ById(iid) => inc.id == iid,
    }
}

/// Some doomed incident carries this id.
pub open spec fn spec_incident_id_doomed(
    incidents: Seq<Incident>,
    sel: IncidentSelector,
    y: i32,
) -> bool {
    exists|k: int|
        0 <= k < incidents.len() && (#[trigger] incidents[k]).id == y && spec_selects(
            sel,
            incidents[k],
        )
}

/// A comment row dies with the incident it references.
pub open spec fn spec_comment_doomed(
    incidents: Seq<Incident>,
    sel: IncidentSelector,
    c: Comment,
) -> bool {
    spec_incident_id_doomed(incidents, sel, c.incident_id)
}

/// Some doomed comment carries this id.
pub open spec fn spec_comment_id_doomed(
    incidents: Seq<Incident>,
    comments: Seq<Comment>,
    sel: IncidentSelector,
    y: i32,
) -> bool {
    exists|k: int|
        0 <= k < comments.len() && (#[trigger] comments[k]).id == y && spec_incident_id_doomed(
            incidents,
            sel,
            comments[k].incident_id,
        )
}

/// An attachment row survives the cascade unless it references a doomed
/// incident or a doomed comment.
pub open spec fn spec_attachment_kept(
    incidents: Seq<Incident>,
    comments: Seq<Comment>,
    sel: IncidentSelector,
    a: Attachment,
) -> bool {
    &&& !(a.incident_id matches Some(x) && spec_incident_id_doomed(incidents, sel, x))
    &&& !(a.comment_id matches Some(y) && spec_comment_id_doomed(incidents, comments, sel, y))
}

/// Tests one incident row against a selector.
pub fn matches_selector(sel: IncidentSelector, inc: &Incident) -> (r: bool)
    ensures
        r == spec_selects(sel, *inc),
{
    match sel {
        IncidentSelector::ByCompany(cid) => inc.company_id == cid,
        IncidentSelector::ByType(tid) => inc.type_id == tid,
        IncidentSelector::ByReporter(uid) => inc.reporter_id == uid,
        IncidentSelector::ById(iid) => inc.id == iid,
    }
}

/// Membership test over a collected id set.
pub(crate) fn contains_id(ids: &Vec<i32>, x: i32) -> (r: bool)
    ensures
        r == ids@.contains(x),
{
    let n = ids.len();
    for i in 0..n
        invariant
            n == ids@.len(),
            forall|k: int| 0 <= k < i ==> ids@[k] != x,
    {
        if ids[i] == x {
            assert(ids@[i as int] == x);
            return true;
        }
    }
    false
}

/// Collects the ids of the incidents a selector dooms; each later step of
/// the cascade keys off this set, so no second scan by a different key is
/// ever needed.
fn collect_doomed_incident_ids(store: &Store, sel: IncidentSelector) -> (r: Vec<i32>)
    ensures
        forall|y: i32| #[trigger]
            r@.contains(y) <==> spec_incident_id_doomed(store.incidents@, sel, y),
{
    let mut out: Vec<i32> = Vec::new();
    let n = store.incidents.len();
    for i in 0..n
        invariant
            n == store.incidents@.len(),
            forall|y: i32| #[trigger]
                out@.contains(y) <==> spec_incident_id_doomed(store.incidents@.take(i as int), sel, y),
    {
        let ghost prevseq = store.incidents@.take(i as int);
        let ghost curseq = store.incidents@.take(i + 1 as int);
        let ghost prev = out@;
        assert(curseq =~= prevseq.push(store.incidents@[i as int]));
        if matches_selector(sel, &store.incidents[i]) {
            out.push(store.incidents[i].id);
        }
        assert forall|y: i32| #[trigger]
            out@.contains(y) <==> spec_incident_id_doomed(curseq, sel, y) by {
            let inc = store.incidents@[i as int];
            if out@.contains(y) {
                let j = choose|j: int| 0 <= j < out@.len() && out@[j] == y;
                if j < prev.len() {
                    assert(prev[j] == y);
                    assert(prev.contains(y));
                    let k = choose|k: int|
                        0 <= k < prevseq.len() && (#[trigger] prevseq[k]).id == y && spec_selects(
                            sel,
                            prevseq[k],
                        );
                    assert(curseq[k] == prevseq[k]);
                    assert(spec_incident_id_doomed(curseq, sel, y));
                } else {
                    assert(y == inc.id && spec_selects(sel, inc));
                    assert(curseq[i as int] == inc);
                    assert(spec_incident_id_doomed(curseq, sel, y));
                }
            }
            if spec_incident_id_doomed(curseq, sel, y) {
                let k = choose|k: int|
                    0 <= k < curseq.len() && (#[trigger] curseq[k]).id == y && spec_selects(
                        sel,
                        curseq[k],
                    );
                if k < i {
                    assert(prevseq[k] == curseq[k]);
                    assert(spec_incident_id_doomed(prevseq, sel, y));
                    assert(prev.contains(y));
                    let j = choose|j: int| 0 <= j < prev.len() && prev[j] == y;
                    assert(out@[j] == y);
                    assert(out@.contains(y));
                } else {
                    assert(curseq[k] == inc);
                    assert(out@[out@.len() - 1] == y);
                    assert(out@.contains(y));
                }
            }
        }
    }
    proof {
        lemma_take_all(store.incidents@);
    }
    out
}

/// Collects the ids of the comments that reference a doomed incident.
fn collect_doomed_comment_ids(store: &Store, ids: &Vec<i32>) -> (r: Vec<i32>)
    ensures
        forall|y: i32| #[trigger]
            r@.contains(y) <==> exists|k: int|
                0 <= k < store.comments@.len() && (#[trigger] store.comments@[k]).id == y
                    && ids@.contains(store.comments@[k].incident_id),
{
    let mut out: Vec<i32> = Vec::new();
    let n = store.comments.len();
    for i in 0..n
        invariant
            n == store.comments@.len(),
            forall|y: i32| #[trigger]
                out@.contains(y) <==> exists|k: int|
                    0 <= k < i && (#[trigger] store.comments@[k]).id == y && ids@.contains(
                        store.comments@[k].incident_id,
                    ),
    {
        let ghost prev = out@;
        if contains_id(ids, store.comments[i].incident_id) {
            out.push(store.comments[i].id);
        }
        assert forall|y: i32| #[trigger]
            out@.contains(y) <==> exists|k: int|
                0 <= k < i + 1 && (#[trigger] store.comments@[k]).id == y && ids@.contains(
                    store.comments@[k].incident_id,
                ) by {
            let c = store.comments@[i as int];
            if out@.contains(y) {
                let j = choose|j: int| 0 <= j < out@.len() && out@[j] == y;
                if j < prev.len() {
                    assert(prev[j] == y);
                    assert(prev.contains(y));
                } else {
                    assert(y == c.id && ids@.contains(c.incident_id));
                }
            }
            if exists|k: int|
                0 <= k < i + 1 && (#[trigger] store.comments@[k]).id == y && ids@.contains(
                    store.comments@[k].incident_id,
                ) {
                let k = choose|k: int|
                    0 <= k < i + 1 && (#[trigger] store.comments@[k]).id == y && ids@.contains(
                        store.comments@[k].incident_id,
                    );
                if k < i {
                    assert(prev.contains(y));
                    let j = choose|j: int| 0 <= j < prev.len() && prev[j] == y;
                    assert(out@[j] == y);
                    assert(out@.contains(y));
                } else {
                    assert(out@[out@.len() - 1] == y);
                    assert(out@.contains(y));
                }
            }
        }
    }
    out
}

/// Keeps the incident rows whose id is outside the doomed set.
fn retain_incidents(v: &Vec<Incident>, ids: &Vec<i32>) -> (r: Vec<Incident>)
    ensures
        r@ == v@.filter(|inc: Incident| !ids@.contains(inc.id)),
{
    let ghost pred = |inc: Incident| !ids@.contains(inc.id);
    let mut out: Vec<Incident> = Vec::new();
    let n = v.len();
    for i in 0..n
        invariant
            n == v@.len(),
            pred == (|inc: Incident| !ids@.contains(inc.id)),
            out@ == v@.take(i as int).filter(pred),
    {
        proof {
            lemma_filter_take_step(v@, pred, i as int);
        }
        let ghost prev = out@;
        if !contains_id(ids, v[i].id) {
            out.push(v[i].clone());
        }
    }
    proof {
        lemma_take_all(v@);
    }
    out
}

/// Keeps the comment rows that reference no doomed incident.
fn retain_comments(v: &Vec<Comment>, ids: &Vec<i32>) -> (r: Vec<Comment>)
    ensures
        r@ == v@.filter(|c: Comment| !ids@.contains(c.incident_id)),
{
    let ghost pred = |c: Comment| !ids@.contains(c.incident_id);
    let mut out: Vec<Comment> = Vec::new();
    let n = v.len();
    for i in 0..n
        invariant
            n == v@.len(),
            pred == (|c: Comment| !ids@.contains(c.incident_id)),
            out@ == v@.take(i as int).filter(pred),
    {
        proof {
            lemma_filter_take_step(v@, pred, i as int);
        }
        if !contains_id(ids, v[i].incident_id) {
            out.push(v[i].clone());
        }
    }
    proof {
        lemma_take_all(v@);
    }
    out
}

/// Keeps the attachment rows that reference neither a doomed incident nor a
/// doomed comment.
fn retain_attachments(v: &Vec<Attachment>, ids: &Vec<i32>, cids: &Vec<i32>) -> (r: Vec<Attachment>)
    ensures
        r@ == v@.filter(
            |a: Attachment| !(a.incident_id matches Some(x) && ids@.contains(x)) && !(a.comment_id
                matches Some(y) && cids@.contains(y)),
        ),
{
    let ghost pred = |a: Attachment|
        !(a.incident_id matches Some(x) && ids@.contains(x)) && !(a.comment_id matches Some(y)
            && cids@.contains(y));
    let mut out: Vec<Attachment> = Vec::new();
    let n = v.len();
    for i in 0..n
        invariant
            n == v@.len(),
            pred == (|a: Attachment| !(a.incident_id matches Some(x) && ids@.contains(x)) && !(
            a.comment_id matches Some(y) && cids@.contains(y))),
            out@ == v@.take(i as int).filter(pred),
    {
        proof {
            lemma_filter_take_step(v@, pred, i as int);
        }
        let doomed_by_incident = match v[i].incident_id {
            Some(x) => contains_id(ids, x),
            None => false,
        };
        let doomed_by_comment = match v[i].comment_id {
            Some(y) => contains_id(cids, y),
            None => false,
        };
        if !doomed_by_incident && !doomed_by_comment {
            out.push(v[i].clone());
        }
    }
    proof {
        lemma_take_all(v@);
    }
    out
}


/// The whole-store invariant argument for one cascade step: filtering the
/// three child tables by the doom predicates keeps the store well-formed.
proof fn lemma_cascade_preserves_wf(s0: Store, s1: Store, sel: IncidentSelector)
    requires
        s0.wf(),
        s1.incidents@ == s0.incidents@.filter((|inc: Incident| !spec_selects(sel, inc))),
        s1.comments@ == s0.comments@.filter(
            (|c: Comment| !spec_comment_doomed(s0.incidents@, sel, c)),
        ),
        s1.attachments@ == s0.attachments@.filter(
            (|a: Attachment| spec_attachment_kept(s0.incidents@, s0.comments@, sel, a)),
        ),
        s1.companies@ == s0.companies@,
        s1.users@ == s0.users@,
        s1.ticket_types@ == s0.ticket_types@,
        s1.next_company_id == s0.next_company_id,
        s1.next_user_id == s0.next_user_id,
        s1.next_ticket_type_id == s0.next_ticket_type_id,
        s1.next_incident_id == s0.next_incident_id,
        s1.next_comment_id == s0.next_comment_id,
        s1.next_attachment_id == s0.next_attachment_id,
    ensures
        s1.wf(),
{
    let pi = |inc: Incident| !spec_selects(sel, inc);
    let pc = |c: Comment| !spec_comment_doomed(s0.incidents@, sel, c);
    let pa = |a: Attachment| spec_attachment_kept(s0.incidents@, s0.comments@, sel, a);
    // uniqueness of ids survives: the filtered tables are subsequences
    let rid_inc = |a: Incident, b: Incident| a.id != b.id;
    let rid_com = |a: Comment, b: Comment| a.id != b.id;
    let rid_att = |a: Attachment, b: Attachment| a.id != b.id;
    let rcode = |a: Incident, b: Incident|
        !(a.ticket_code matches Some(x) && b.ticket_code matches Some(y) && x@ == y@);
    lemma_filter_preserves_pairwise(s0.incidents@, pi, rid_inc);
    lemma_filter_preserves_pairwise(s0.comments@, pc, rid_com);
    lemma_filter_preserves_pairwise(s0.attachments@, pa, rid_att);
    lemma_filter_preserves_pairwise(s0.incidents@, pi, rcode);
    assert forall|i: int, j: int| 0 <= i < j < s1.incidents@.len() implies s1.incidents@[i].id
        != s1.incidents@[j].id by {
        assert(rid_inc(s1.incidents@[i], s1.incidents@[j]));
    }
    assert forall|i: int, j: int| 0 <= i < j < s1.comments@.len() implies s1.comments@[i].id
        != s1.comments@[j].id by {
        assert(rid_com(s1.comments@[i], s1.comments@[j]));
    }
    assert forall|i: int, j: int| 0 <= i < j < s1.attachments@.len() implies s1.attachments@[i].id
        != s1.attachments@[j].id by {
        assert(rid_att(s1.attachments@[i], s1.attachments@[j]));
    }
    assert forall|i: int, j: int|
        #![trigger s1.incidents@[i].ticket_code, s1.incidents@[j].ticket_code]
        0 <= i < j < s1.incidents@.len() implies !(s1.incidents@[i].ticket_code matches Some(a)
        && s1.incidents@[j].ticket_code matches Some(b) && a@ == b@) by {
        assert(rcode(s1.incidents@[i], s1.incidents@[j]));
    }
    // id bounds and nonnegative tenants survive: filters keep only old rows
    let bnd_inc = |inc: Incident| 1 <= inc.id < s0.next_incident_id && inc.company_id >= 0;
    let bnd_com = |c: Comment| 1 <= c.id < s0.next_comment_id;
    let bnd_att = |a: Attachment| 1 <= a.id < s0.next_attachment_id;
    assert forall|i: int| 0 <= i < s0.incidents@.len() implies #[trigger] bnd_inc(
        s0.incidents@[i],
    ) by {}
    assert forall|i: int| 0 <= i < s0.comments@.len() implies #[trigger] bnd_com(
        s0.comments@[i],
    ) by {}
    assert forall|i: int| 0 <= i < s0.attachments@.len() implies #[trigger] bnd_att(
        s0.attachments@[i],
    ) by {}
    lemma_filter_preserves_forall(s0.incidents@, pi, bnd_inc);
    lemma_filter_preserves_forall(s0.comments@, pc, bnd_com);
    lemma_filter_preserves_forall(s0.attachments@, pa, bnd_att);
    assert forall|i: int| 0 <= i < s1.incidents@.len() implies 1 <= (
    #[trigger] s1.incidents@[i]).id < s1.next_incident_id && s1.incidents@[i].company_id >= 0 by {
        assert(bnd_inc(s1.incidents@[i]));
    }
    assert forall|i: int| 0 <= i < s1.comments@.len() implies 1 <= (
    #[trigger] s1.comments@[i]).id < s1.next_comment_id by {
        assert(bnd_com(s1.comments@[i]));
    }
    assert forall|i: int| 0 <= i < s1.attachments@.len() implies 1 <= (
    #[trigger] s1.attachments@[i]).id < s1.next_attachment_id by {
        assert(bnd_att(s1.attachments@[i]));
    }
    // kept comments still reference a kept incident
    assert forall|i: int| 0 <= i < s1.comments@.len() implies s1.has_incident(
        #[trigger] s1.comments@[i].incident_id,
    ) by {
        let c = s1.comments@[i];
        s0.comments@.lemma_filter_pred(pc, i);
        assert(s1.comments@.contains(c));
        s0.comments@.lemma_filter_contains_rev(pc, c);
        let k = choose|k: int| 0 <= k < s0.comments@.len() && s0.comments@[k] == c;
        assert(s0.has_incident(c.incident_id));
        let m = choose|m: int|
            0 <= m < s0.incidents@.len() && s0.incidents@[m].id == c.incident_id;
        let inc = s0.incidents@[m];
        assert(!spec_selects(sel, inc)) by {
            if spec_selects(sel, inc) {
                assert(spec_incident_id_doomed(s0.incidents@, sel, c.incident_id));
            }
        }
        lemma_filter_keeps(s0.incidents@, pi, inc);
        let w = choose|w: int| 0 <= w < s1.incidents@.len() && s1.incidents@[w] == inc;
        assert(s1.has_incident(c.incident_id));
    }
    // kept attachments still reference kept incidents and kept comments
    assert forall|i: int| 0 <= i < s1.attachments@.len() implies ((
    #[trigger] s1.attachments@[i].incident_id) matches Some(n) ==> s1.has_incident(n)) by {
        let a = s1.attachments@[i];
        s0.attachments@.lemma_filter_pred(pa, i);
        assert(s1.attachments@.contains(a));
        s0.attachments@.lemma_filter_contains_rev(pa, a);
        let k = choose|k: int| 0 <= k < s0.attachments@.len() && s0.attachments@[k] == a;
        match a.incident_id {
            Some(n) => {
            assert(s0.has_incident(n));
            let m = choose|m: int|
                0 <= m < s0.incidents@.len() && s0.incidents@[m].id == n;
            let inc = s0.incidents@[m];
            assert(!spec_selects(sel, inc)) by {
                if spec_selects(sel, inc) {
                    assert(spec_incident_id_doomed(s0.incidents@, sel, n));
                }
            }
            lemma_filter_keeps(s0.incidents@, pi, inc);
            let w = choose|w: int| 0 <= w < s1.incidents@.len() && s1.incidents@[w] == inc;
            assert(s1.has_incident(n));
            },
            None => {},
        }
    }
    assert forall|i: int| 0 <= i < s1.attachments@.len() implies ((
    #[trigger] s1.attachments@[i].comment_id) matches Some(n) ==> s1.has_comment(n)) by {
        let a = s1.attachments@[i];
        s0.attachments@.lemma_filter_pred(pa, i);
        assert(s1.attachments@.contains(a));
        s0.attachments@.lemma_filter_contains_rev(pa, a);
        let k = choose|k: int| 0 <= k < s0.attachments@.len() && s0.attachments@[k] == a;
        match a.comment_id {
            Some(n) => {
            assert(s0.has_comment(n));
            let m = choose|m: int| 0 <= m < s0.comments@.len() && s0.comments@[m].id == n;
            let c = s0.comments@[m];
            assert(!spec_comment_doomed(s0.incidents@, sel, c)) by {
                if spec_comment_doomed(s0.incidents@, sel, c) {
                    assert(spec_comment_id_doomed(s0.incidents@, s0.comments@, sel, n));
                }
            }
            lemma_filter_keeps(s0.comments@, pc, c);
            let w = choose|w: int| 0 <= w < s1.comments@.len() && s1.comments@[w] == c;
            assert(s1.has_comment(n));
            },
            None => {},
        }
    }
    // unchanged tables carry their clauses over unchanged
    assert forall|i: int| 0 <= i < s1.users@.len() implies (
    (#[trigger] s1.users@[i].company_id) matches Some(c) ==> s1.has_company(c)) by {
        assert(s1.users@[i] == s0.users@[i]);
        match s1.users@[i].company_id {
            Some(c) => {
                assert(s0.has_company(c));
                let m = choose|m: int| 0 <= m < s0.companies@.len() && s0.companies@[m].id == c;
                assert(s1.companies@[m].id == c);
            },
            None => {},
        }
    }
    assert(s1.unique_ids());
    assert(s1.unique_emails());
    assert(s1.unique_ticket_codes());
    assert(s1.referential_integrity());
    assert(s1.reset_tokens_paired());
    assert(s1.ids_bounded());
    assert(s1.incident_tenants_nonnegative());
}

/// Removes every incident the selector dooms, together with the comments
/// and attachments that would otherwise be orphaned, children first:
/// attachments of doomed comments and incidents, then those comments, then
/// the incidents. Rows of other tables are untouched.
pub fn cascade_delete_incidents(store: &mut Store, sel: IncidentSelector)
    requires
        old(store).wf(),
    ensures
        final(store).wf(),
        final(store).incidents@ == old(store).incidents@.filter(
            (|inc: Incident| !spec_selects(sel, inc)),
        ),
        final(store).comments@ == old(store).comments@.filter(
            (|c: Comment| !spec_comment_doomed(old(store).incidents@, sel, c)),
        ),
        final(store).attachments@ == old(store).attachments@.filter(
            (|a: Attachment| spec_attachment_kept(
                old(store).incidents@,
                old(store).comments@,
                sel,
                a,
            )),
        ),
        final(store).companies@ == old(store).companies@,
        final(store).users@ == old(store).users@,
        final(store).ticket_types@ == old(store).ticket_types@,
        final(store).notification_config == old(store).notification_config,
        final(store).next_company_id == old(store).next_company_id,
        final(store).next_user_id == old(store).next_user_id,
        final(store).next_ticket_type_id == old(store).next_ticket_type_id,
        final(store).next_incident_id == old(store).next_incident_id,
        final(store).next_comment_id == old(store).next_comment_id,
        final(store).next_attachment_id == old(store).next_attachment_id,
{
    let ghost s0 = *store;
    let ids = collect_doomed_incident_ids(store, sel);
    let cids = collect_doomed_comment_ids(store, &ids);
    let new_attachments = retain_attachments(&store.attachments, &ids, &cids);
    let new_comments = retain_comments(&store.comments, &ids);
    let new_incidents = retain_incidents(&store.incidents, &ids);
    store.attachments = new_attachments;
    store.comments = new_comments;
    store.incidents = new_incidents;
    proof {
        // the id-set filters coincide with the spec-level doom predicates
        assert forall|m: int| 0 <= m < s0.incidents@.len() implies (
        (|inc: Incident| !ids@.contains(inc.id))(#[trigger] s0.incidents@[m]) <==> (
        |inc: Incident| !spec_selects(sel, inc))(s0.incidents@[m])) by {
            let inc = s0.incidents@[m];
            if ids@.contains(inc.id) {
                let k = choose|k: int|
                    0 <= k < s0.incidents@.len() && (#[trigger] s0.incidents@[k]).id == inc.id
                        && spec_selects(sel, s0.incidents@[k]);
                assert(k == m);
            }
            if spec_selects(sel, inc) {
                assert(spec_incident_id_doomed(s0.incidents@, sel, inc.id));
            }
        }
        lemma_filter_congruent(
            s0.incidents@,
            |inc: Incident| !ids@.contains(inc.id),
            |inc: Incident| !spec_selects(sel, inc),
        );
        assert forall|m: int| 0 <= m < s0.comments@.len() implies (
        (|c: Comment| !ids@.contains(c.incident_id))(#[trigger] s0.comments@[m]) <==> (
        |c: Comment| !spec_comment_doomed(s0.incidents@, sel, c))(s0.comments@[m])) by {
            let c = s0.comments@[m];
            assert(ids@.contains(c.incident_id) <==> spec_incident_id_doomed(
                s0.incidents@,
                sel,
                c.incident_id,
            ));
        }
        lemma_filter_congruent(
            s0.comments@,
            |c: Comment| !ids@.contains(c.incident_id),
            |c: Comment| !spec_comment_doomed(s0.incidents@, sel, c),
        );
        assert forall|y: i32| #[trigger] cids@.contains(y) <==> spec_comment_id_doomed(
            s0.incidents@,
            s0.comments@,
            sel,
            y,
        ) by {
            if cids@.contains(y) {
                let k = choose|k: int|
                    0 <= k < s0.comments@.len() && (#[trigger] s0.comments@[k]).id == y
                        && ids@.contains(s0.comments@[k].incident_id);
                assert(spec_incident_id_doomed(s0.incidents@, sel, s0.comments@[k].incident_id));
            }
            if spec_comment_id_doomed(s0.incidents@, s0.comments@, sel, y) {
                let k = choose|k: int|
                    0 <= k < s0.comments@.len() && (#[trigger] s0.comments@[k]).id == y
                        && spec_incident_id_doomed(
                        s0.incidents@,
                        sel,
                        s0.comments@[k].incident_id,
                    );
                assert(ids@.contains(s0.comments@[k].incident_id));
            }
        }
        assert forall|m: int| 0 <= m < s0.attachments@.len() implies (
        (|a: Attachment| !(a.incident_id matches Some(x) && ids@.contains(x)) && !(a.comment_id
            matches Some(y) && cids@.contains(y)))(#[trigger] s0.attachments@[m]) <==> (
        |a: Attachment| spec_attachment_kept(s0.incidents@, s0.comments@, sel, a))(
        s0.attachments@[m])) by {
            let a = s0.attachments@[m];
            match a.incident_id {
                Some(x) => {
                    assert(ids@.contains(x) <==> spec_incident_id_doomed(
                        s0.incidents@,
                        sel,
                        x,
                    ));
                },
                None => {},
            }
            match a.comment_id {
                Some(y) => {
                    assert(cids@.contains(y) <==> spec_comment_id_doomed(
                        s0.incidents@,
                        s0.comments@,
                        sel,
                        y,
                    ));
                },
                None => {},
            }
        }
        lemma_filter_congruent(
            s0.attachments@,
            |a: Attachment| !(a.incident_id matches Some(x) && ids@.contains(x)) && !(a.comment_id
                matches Some(y) && cids@.contains(y)),
            |a: Attachment| spec_attachment_kept(s0.incidents@, s0.comments@, sel, a),
        );
        lemma_cascade_preserves_wf(s0, *store, sel);
    }
}


/// Rewrites one incident row for the removal of a user: an assignment to
/// that user is cleared; nothing else changes. The incident survives.
pub open spec fn spec_clear_assignee(inc: Incident, uid: i32) -> Incident {
    if inc.assignee_id == Some(uid) {
        Incident { assignee_id: None, ..inc }
    } else {
        inc
    }
}

/// Clears `assignee_id` on every incident assigned to the given user.
fn clear_assignees(v: &Vec<Incident>, uid: i32) -> (r: Vec<Incident>)
    ensures
        r@ == v@.map_values((|inc: Incident| spec_clear_assignee(inc, uid))),
{
    let ghost f = |inc: Incident| spec_clear_assignee(inc, uid);
    let mut out: Vec<Incident> = Vec::new();
    let n = v.len();
    for i in 0..n
        invariant
            n == v@.len(),
            f == (|inc: Incident| spec_clear_assignee(inc, uid)),
            out@ == v@.take(i as int).map_values(f),
    {
        proof {
            lemma_map_take_step(v@, f, i as int);
        }
        let mut inc = v[i].clone();
        let assigned = match inc.assignee_id {
            Some(a) => a == uid,
            None => false,
        };
        if assigned {
            inc.assignee_id = None;
        }
        assert(inc == f(v@[i as int]));
        out.push(inc);
    }
    proof {
        lemma_take_all(v@);
    }
    out
}

/// Keeps the user rows outside the given tenant.
fn retain_users_not_of_company(v: &Vec<User>, cid: i32) -> (r: Vec<User>)
    ensures
        r@ == v@.filter((|u: User| u.company_id != Some(cid))),
{
    let ghost pred = |u: User| u.company_id != Some(cid);
    let mut out: Vec<User> = Vec::new();
    let n = v.len();
    for i in 0..n
        invariant
            n == v@.len(),
            pred == (|u: User| u.company_id != Some(cid)),
            out@ == v@.take(i as int).filter(pred),
    {
        proof {
            lemma_filter_take_step(v@, pred, i as int);
        }
        let of_company = match v[i].company_id {
            Some(c) => c == cid,
            None => false,
        };
        if !of_company {
            out.push(v[i].clone());
        }
    }
    proof {
        lemma_take_all(v@);
    }
    out
}

/// Keeps the user rows other than the given id.
fn retain_users_not_id(v: &Vec<User>, id: i32) -> (r: Vec<User>)
    ensures
        r@ == v@.filter((|u: User| u.id != id)),
{
    let ghost pred = |u: User| u.id != id;
    let mut out: Vec<User> = Vec::new();
    let n = v.len();
    for i in 0..n
        invariant
            n == v@.len(),
            pred == (|u: User| u.id != id),
            out@ == v@.take(i as int).filter(pred),
    {
        proof {
            lemma_filter_take_step(v@, pred, i as int);
        }
        if v[i].id != id {
            out.push(v[i].clone());
        }
    }
    proof {
        lemma_take_all(v@);
    }
    out
}

/// Keeps the company rows other than the given id.
fn retain_companies_not_id(v: &Vec<Company>, id: i32) -> (r: Vec<Company>)
    ensures
        r@ == v@.filter((|c: Company| c.id != id)),
{
    let ghost pred = |c: Company| c.id != id;
    let mut out: Vec<Company> = Vec::new();
    let n = v.len();
    for i in 0..n
        invariant
            n == v@.len(),
            pred == (|c: Company| c.id != id),
            out@ == v@.take(i as int).filter(pred),
    {
        proof {
            lemma_filter_take_step(v@, pred, i as int);
        }
        if v[i].id != id {
            out.push(v[i].clone());
        }
    }
    proof {
        lemma_take_all(v@);
    }
    out
}

/// Keeps the ticket type rows other than the given id.
fn retain_ticket_types_not_id(v: &Vec<TicketType>, id: i32) -> (r: Vec<TicketType>)
    ensures
        r@ == v@.filter((|t: TicketType| t.id != id)),
{
    let ghost pred = |t: TicketType| t.id != id;
    let mut out: Vec<TicketType> = Vec::new();
    let n = v.len();
    for i in 0..n
        invariant
            n == v@.len(),
            pred == (|t: TicketType| t.id != id),
            out@ == v@.take(i as int).filter(pred),
    {
        proof {
            lemma_filter_take_step(v@, pred, i as int);
        }
        if v[i].id != id {
            out.push(v[i].clone());
        }
    }
    proof {
        lemma_take_all(v@);
    }
    out
}


/// After a company's cascade, purging the tenant's user rows and the company
/// row itself keeps the store well-formed.
proof fn lemma_tenant_purge_preserves_wf(s1: Store, s2: Store, cid: i32)
    requires
        s1.wf(),
        s2.users@ == s1.users@.filter((|u: User| u.company_id != Some(cid))),
        s2.companies@ == s1.companies@.filter((|c: Company| c.id != cid)),
        s2.incidents@ == s1.incidents@,
        s2.comments@ == s1.comments@,
        s2.attachments@ == s1.attachments@,
        s2.ticket_types@ == s1.ticket_types@,
        s2.next_company_id == s1.next_company_id,
        s2.next_user_id == s1.next_user_id,
        s2.next_ticket_type_id == s1.next_ticket_type_id,
        s2.next_incident_id == s1.next_incident_id,
        s2.next_comment_id == s1.next_comment_id,
        s2.next_attachment_id == s1.next_attachment_id,
    ensures
        s2.wf(),
{
    let pu = |u: User| u.company_id != Some(cid);
    let pcom = |c: Company| c.id != cid;
    let rid_u = |a: User, b: User| a.id != b.id;
    let remail = |a: User, b: User| a.email@ != b.email@;
    let rid_c = |a: Company, b: Company| a.id != b.id;
    lemma_filter_preserves_pairwise(s1.users@, pu, rid_u);
    lemma_filter_preserves_pairwise(s1.users@, pu, remail);
    lemma_filter_preserves_pairwise(s1.companies@, pcom, rid_c);
    assert forall|i: int, j: int| 0 <= i < j < s2.users@.len() implies s2.users@[i].id
        != s2.users@[j].id && s2.users@[i].email@ != s2.users@[j].email@ by {
        assert(rid_u(s2.users@[i], s2.users@[j]));
        assert(remail(s2.users@[i], s2.users@[j]));
    }
    assert forall|i: int, j: int| 0 <= i < j < s2.companies@.len() implies s2.companies@[i].id
        != s2.companies@[j].id by {
        assert(rid_c(s2.companies@[i], s2.companies@[j]));
    }
    let bnd_u = |u: User|
        1 <= u.id < s1.next_user_id && (u.reset_token is Some <==> u.reset_token_expiry is Some);
    let bnd_c = |c: Company| 1 <= c.id < s1.next_company_id;
    assert forall|i: int| 0 <= i < s1.users@.len() implies #[trigger] bnd_u(s1.users@[i]) by {}
    assert forall|i: int| 0 <= i < s1.companies@.len() implies #[trigger] bnd_c(
        s1.companies@[i],
    ) by {}
    lemma_filter_preserves_forall(s1.users@, pu, bnd_u);
    lemma_filter_preserves_forall(s1.companies@, pcom, bnd_c);
    assert forall|i: int| 0 <= i < s2.users@.len() implies 1 <= (#[trigger] s2.users@[i]).id
        < s2.next_user_id && (s2.users@[i].reset_token is Some <==> s2.users@[i].reset_token_expiry
        is Some) by {
        assert(bnd_u(s2.users@[i]));
    }
    assert forall|i: int| 0 <= i < s2.companies@.len() implies 1 <= (
    #[trigger] s2.companies@[i]).id < s2.next_company_id by {
        assert(bnd_c(s2.companies@[i]));
    }
    // surviving users belong to surviving companies
    assert forall|i: int| 0 <= i < s2.users@.len() implies (
    (#[trigger] s2.users@[i].company_id) matches Some(c) ==> s2.has_company(c)) by {
        let u = s2.users@[i];
        s1.users@.lemma_filter_pred(pu, i);
        assert(s2.users@.contains(u));
        s1.users@.lemma_filter_contains_rev(pu, u);
        let k = choose|k: int| 0 <= k < s1.users@.len() && s1.users@[k] == u;
        match u.company_id {
            Some(c) => {
                assert(s1.has_company(c));
                let m = choose|m: int|
                    0 <= m < s1.companies@.len() && s1.companies@[m].id == c;
                let comp = s1.companies@[m];
                assert(c != cid);
                lemma_filter_keeps(s1.companies@, pcom, comp);
                let w = choose|w: int|
                    0 <= w < s2.companies@.len() && s2.companies@[w] == comp;
                assert(s2.has_company(c));
            },
            None => {},
        }
    }
    // the child tables are untouched and their parents survive untouched
    assert(s2.referential_integrity()) by {
        assert forall|i: int| 0 <= i < s2.comments@.len() implies s2.has_incident(
            #[trigger] s2.comments@[i].incident_id,
        ) by {
            assert(s1.has_incident(s1.comments@[i].incident_id));
        }
        assert forall|i: int| 0 <= i < s2.attachments@.len() implies ((
        #[trigger] s2.attachments@[i].incident_id) matches Some(n) ==> s2.has_incident(n)) && ((
        s2.attachments@[i].comment_id) matches Some(n2) ==> s2.has_comment(n2)) by {
            match s1.attachments@[i].incident_id {
                Some(n) => {
                    assert(s1.has_incident(n));
                },
                None => {},
            }
            match s1.attachments@[i].comment_id {
                Some(n2) => {
                    assert(s1.has_comment(n2));
                },
                None => {},
            }
        }
    }
}

/// Clearing assignments for one user rewrites rows in place: ids, codes,
/// tenants, reporters and types are untouched, so the store stays
/// well-formed.
proof fn lemma_clear_assignees_preserves_wf(s0: Store, s1: Store, uid: i32)
    requires
        s0.wf(),
        s1.incidents@ == s0.incidents@.map_values(
            (|inc: Incident| spec_clear_assignee(inc, uid)),
        ),
        s1.users@ == s0.users@,
        s1.companies@ == s0.companies@,
        s1.comments@ == s0.comments@,
        s1.attachments@ == s0.attachments@,
        s1.ticket_types@ == s0.ticket_types@,
        s1.next_company_id == s0.next_company_id,
        s1.next_user_id == s0.next_user_id,
        s1.next_ticket_type_id == s0.next_ticket_type_id,
        s1.next_incident_id == s0.next_incident_id,
        s1.next_comment_id == s0.next_comment_id,
        s1.next_attachment_id == s0.next_attachment_id,
    ensures
        s1.wf(),
{
    assert forall|i: int| 0 <= i < s1.incidents@.len() implies #[trigger] s1.incidents@[i]
        == spec_clear_assignee(s0.incidents@[i], uid) by {}
    assert forall|i: int| 0 <= i < s1.incidents@.len() implies (#[trigger] s1.incidents@[i]).id
        == s0.incidents@[i].id && s1.incidents@[i].ticket_code == s0.incidents@[i].ticket_code
        && s1.incidents@[i].company_id == s0.incidents@[i].company_id by {}
    assert(s1.unique_ids());
    assert(s1.unique_ticket_codes());
    assert(s1.ids_bounded());
    assert(s1.incident_tenants_nonnegative());
    assert forall|i: int| 0 <= i < s1.comments@.len() implies s1.has_incident(
        #[trigger] s1.comments@[i].incident_id,
    ) by {
        assert(s0.has_incident(s0.comments@[i].incident_id));
        let m = choose|m: int|
            0 <= m < s0.incidents@.len() && s0.incidents@[m].id == s0.comments@[i].incident_id;
        assert(s1.incidents@[m].id == s0.comments@[i].incident_id);
    }
    assert forall|i: int| 0 <= i < s1.attachments@.len() implies ((
    #[trigger] s1.attachments@[i].incident_id) matches Some(n) ==> s1.has_incident(n)) && ((
    s1.attachments@[i].comment_id) matches Some(n2) ==> s1.has_comment(n2)) by {
        match s0.attachments@[i].incident_id {
            Some(n) => {
                assert(s0.has_incident(n));
                let m = choose|m: int|
                    0 <= m < s0.incidents@.len() && s0.incidents@[m].id == n;
                assert(s1.incidents@[m].id == n);
            },
            None => {},
        }
        match s0.attachments@[i].comment_id {
            Some(n2) => {
                assert(s0.has_comment(n2));
            },
            None => {},
        }
    }
}

/// Deletes a company and every record that would otherwise be orphaned:
/// the tenant's incidents with their comments and attachments, then the
/// tenant's users, then the company row. Superadmin only.
pub fn delete_company(store: &mut Store, actor: &User, id: i32) -> (r: Result<(), AppError>)
    requires
        old(store).wf(),
    ensures
        final(store).wf(),
        r is Ok <==> crate::scope::spec_is_admin(*actor) && old(store).has_company(id),
        !crate::scope::spec_is_admin(*actor) ==> r == Err::<(), AppError>(AppError::Forbidden)
            && *final(store) == *old(store),
        crate::scope::spec_is_admin(*actor) && !old(store).has_company(id) ==> r == Err::<
            (),
            AppError,
        >(AppError::NotFound) && *final(store) == *old(store),
        r is Ok ==> {
            &&& final(store).incidents@ == old(store).incidents@.filter(
                (|inc: Incident| !spec_selects(IncidentSelector::ByCompany(id), inc)),
            )
            &&& final(store).comments@ == old(store).comments@.filter(
                (|c: Comment| !spec_comment_doomed(
                    old(store).incidents@,
                    IncidentSelector::ByCompany(id),
                    c,
                )),
            )
            &&& final(store).attachments@ == old(store).attachments@.filter(
                (|a: Attachment| spec_attachment_kept(
                    old(store).incidents@,
                    old(store).comments@,
                    IncidentSelector::ByCompany(id),
                    a,
                )),
            )
            &&& final(store).users@ == old(store).users@.filter(
                (|u: User| u.company_id != Some(id)),
            )
            &&& final(store).companies@ == old(store).companies@.filter(
                (|c: Company| c.id != id),
            )
            &&& final(store).ticket_types@ == old(store).ticket_types@
            &&& final(store).notification_config == old(store).notification_config
        },
{
    if !crate::scope::is_admin(actor) {
        return Err(AppError::Forbidden);
    }
    if store.find_company(id).is_none() {
        return Err(AppError::NotFound);
    }
    let ghost s0 = *store;
    cascade_delete_incidents(store, IncidentSelector::ByCompany(id));
    let ghost s1 = *store;
    let new_users = retain_users_not_of_company(&store.users, id);
    store.users = new_users;
    let new_companies = retain_companies_not_id(&store.companies, id);
    store.companies = new_companies;
    proof {
        lemma_tenant_purge_preserves_wf(s1, *store, id);
    }
    Ok(())
}

/// Deletes a ticket type and, first, every incident of that type together
/// with those incidents' comments and attachments. Superadmin only.
pub fn delete_ticket_type(store: &mut Store, actor: &User, id: i32) -> (r: Result<(), AppError>)
    requires
        old(store).wf(),
    ensures
        final(store).wf(),
        r is Ok <==> crate::scope::spec_is_admin(*actor) && old(store).has_ticket_type(id),
        !crate::scope::spec_is_admin(*actor) ==> r == Err::<(), AppError>(AppError::Forbidden)
            && *final(store) == *old(store),
        crate::scope::spec_is_admin(*actor) && !old(store).has_ticket_type(id) ==> r == Err::<
            (),
            AppError,
        >(AppError::NotFound) && *final(store) == *old(store),
        r is Ok ==> {
            &&& final(store).incidents@ == old(store).incidents@.filter(
                (|inc: Incident| !spec_selects(IncidentSelector::ByType(id), inc)),
            )
            &&& final(store).comments@ == old(store).comments@.filter(
                (|c: Comment| !spec_comment_doomed(
                    old(store).incidents@,
                    IncidentSelector::ByType(id),
                    c,
                )),
            )
            &&& final(store).attachments@ == old(store).attachments@.filter(
                (|a: Attachment| spec_attachment_kept(
                    old(store).incidents@,
                    old(store).comments@,
                    IncidentSelector::ByType(id),
                    a,
                )),
            )
            &&& final(store).ticket_types@ == old(store).ticket_types@.filter(
                (|t: TicketType| t.id != id),
            )
            &&& final(store).users@ == old(store).users@
            &&& final(store).companies@ == old(store).companies@
            &&& final(store).notification_config == old(store).notification_config
        },
{
    if !crate::scope::is_admin(actor) {
        return Err(AppError::Forbidden);
    }
    if store.find_ticket_type(id).is_none() {
        return Err(AppError::NotFound);
    }
    cascade_delete_incidents(store, IncidentSelector::ByType(id));
    let ghost s1 = *store;
    let new_types = retain_ticket_types_not_id(&store.ticket_types, id);
    store.ticket_types = new_types;
    proof {
        let pt = |t: TicketType| t.id != id;
        let rid_t = |a: TicketType, b: TicketType| a.id != b.id;
        lemma_filter_preserves_pairwise(s1.ticket_types@, pt, rid_t);
        assert forall|i: int, j: int|
            0 <= i < j < store.ticket_types@.len() implies store.ticket_types@[i].id
            != store.ticket_types@[j].id by {
            assert(rid_t(store.ticket_types@[i], store.ticket_types@[j]));
        }
        let bnd_t = |t: TicketType| 1 <= t.id < s1.next_ticket_type_id;
        assert forall|i: int| 0 <= i < s1.ticket_types@.len() implies #[trigger] bnd_t(
            s1.ticket_types@[i],
        ) by {}
        lemma_filter_preserves_forall(s1.ticket_types@, pt, bnd_t);
        assert forall|i: int| 0 <= i < store.ticket_types@.len() implies 1 <= (
        #[trigger] store.ticket_types@[i]).id < store.next_ticket_type_id by {
            assert(bnd_t(store.ticket_types@[i]));
        }
        assert(store.unique_ids());
        assert(store.unique_emails());
        assert(store.unique_ticket_codes());
        assert(store.reset_tokens_paired());
        assert(store.ids_bounded());
        assert(store.incident_tenants_nonnegative());
        assert forall|i: int| 0 <= i < store.users@.len() implies (
        (#[trigger] store.users@[i].company_id) matches Some(c) ==> store.has_company(c)) by {
            match s1.users@[i].company_id {
                Some(c) => {
                    assert(s1.has_company(c));
                },
                None => {},
            }
        }
        assert forall|i: int| 0 <= i < store.comments@.len() implies store.has_incident(
            #[trigger] store.comments@[i].incident_id,
        ) by {
            assert(s1.has_incident(s1.comments@[i].incident_id));
        }
        assert forall|i: int| 0 <= i < store.attachments@.len() implies ((
        #[trigger] store.attachments@[i].incident_id) matches Some(n) ==> store.has_incident(n))
            && ((store.attachments@[i].comment_id) matches Some(n2) ==> store.has_comment(
            n2,
        )) by {
            match s1.attachments@[i].incident_id {
                Some(n) => {
                    assert(s1.has_incident(n));
                },
                None => {},
            }
            match s1.attachments@[i].comment_id {
                Some(n2) => {
                    assert(s1.has_comment(n2));
                },
                None => {},
            }
        }
        assert(store.referential_integrity());
        assert(store.wf());
    }
    Ok(())
}

/// Deletes one incident directly, removing its comments and attachments
/// first: the storage layer has no cascade of its own. Superadmin only.
pub fn delete_incident(store: &mut Store, actor: &User, id: i32) -> (r: Result<(), AppError>)
    requires
        old(store).wf(),
    ensures
        final(store).wf(),
        r is Ok <==> crate::scope::spec_is_admin(*actor) && old(store).has_incident(id),
        !crate::scope::spec_is_admin(*actor) ==> r == Err::<(), AppError>(AppError::Forbidden)
            && *final(store) == *old(store),
        crate::scope::spec_is_admin(*actor) && !old(store).has_incident(id) ==> r == Err::<
            (),
            AppError,
        >(AppError::NotFound) && *final(store) == *old(store),
        r is Ok ==> {
            &&& final(store).incidents@ == old(store).incidents@.filter(
                (|inc: Incident| !spec_selects(IncidentSelector::ById(id), inc)),
            )
            &&& final(store).comments@ == old(store).comments@.filter(
                (|c: Comment| !spec_comment_doomed(
                    old(store).incidents@,
                    IncidentSelector::ById(id),
                    c,
                )),
            )
            &&& final(store).attachments@ == old(store).attachments@.filter(
                (|a: Attachment| spec_attachment_kept(
                    old(store).incidents@,
                    old(store).comments@,
                    IncidentSelector::ById(id),
                    a,
                )),
            )
            &&& final(store).users@ == old(store).users@
            &&& final(store).companies@ == old(store).companies@
            &&& final(store).ticket_types@ == old(store).ticket_types@
            &&& final(store).notification_config == old(store).notification_config
        },
{
    if !crate::scope::is_admin(actor) {
        return Err(AppError::Forbidden);
    }
    if store.find_incident(id).is_none() {
        return Err(AppError::NotFound);
    }
    cascade_delete_incidents(store, IncidentSelector::ById(id));
    Ok(())
}

/// Deletes a user. Incidents merely assigned to the user survive with the
/// assignment cleared; incidents the user reported are cascade-deleted with
/// their comments and attachments; then the user row goes. Superadmin only,
/// and never against the actor's own account.
pub fn delete_user(store: &mut Store, actor: &User, id: i32) -> (r: Result<(), AppError>)
    requires
        old(store).wf(),
    ensures
        final(store).wf(),
        r is Ok <==> crate::scope::spec_is_admin(*actor) && actor.id != id && old(
            store,
        ).has_user(id),
        !crate::scope::spec_is_admin(*actor) ==> r == Err::<(), AppError>(AppError::Forbidden)
            && *final(store) == *old(store),
        crate::scope::spec_is_admin(*actor) && actor.id == id ==> r == Err::<(), AppError>(
            AppError::Validation,
        ) && *final(store) == *old(store),
        crate::scope::spec_is_admin(*actor) && actor.id != id && !old(store).has_user(id) ==> r
            == Err::<(), AppError>(AppError::NotFound) && *final(store) == *old(store),
        r is Ok ==> {
            &&& final(store).incidents@ == old(store).incidents@.filter(
                (|inc: Incident| inc.reporter_id != id),
            ).map_values((|inc: Incident| spec_clear_assignee(inc, id)))
            &&& final(store).comments@ == old(store).comments@.filter(
                (|c: Comment| !spec_comment_doomed(
                    old(store).incidents@,
                    IncidentSelector::ByReporter(id),
                    c,
                )),
            )
            &&& final(store).attachments@ == old(store).attachments@.filter(
                (|a: Attachment| spec_attachment_kept(
                    old(store).incidents@,
                    old(store).comments@,
                    IncidentSelector::ByReporter(id),
                    a,
                )),
            )
            &&& final(store).users@ == old(store).users@.filter((|u: User| u.id != id))
            &&& final(store).companies@ == old(store).companies@
            &&& final(store).ticket_types@ == old(store).ticket_types@
            &&& final(store).notification_config == old(store).notification_config
        },
{
    if !crate::scope::is_admin(actor) {
        return Err(AppError::Forbidden);
    }
    if actor.id == id {
        return Err(AppError::Validation);
    }
    if store.find_user(id).is_none() {
        return Err(AppError::NotFound);
    }
    let ghost s0 = *store;
    let cleared = clear_assignees(&store.incidents, id);
    store.incidents = cleared;
    proof {
        lemma_clear_assignees_preserves_wf(s0, *store, id);
    }
    let ghost s1 = *store;
    cascade_delete_incidents(store, IncidentSelector::ByReporter(id));
    let ghost s2 = *store;
    let new_users = retain_users_not_id(&store.users, id);
    store.users = new_users;
    proof {
        let sel = IncidentSelector::ByReporter(id);
        let f = |inc: Incident| spec_clear_assignee(inc, id);
        let p = |inc: Incident| inc.reporter_id != id;
        let q = |inc: Incident| !spec_selects(sel, inc);
        // clearing an assignment never changes who reported the incident
        assert forall|x: Incident| #[trigger] q(f(x)) == p(x) by {}
        crate::seq_lemmas::lemma_filter_map_commute(s0.incidents@, f, p, q);
        // the doom predicates read only fields the clearing step preserves
        assert forall|m: int| 0 <= m < s0.comments@.len() implies ((|c: Comment|
            !spec_comment_doomed(s1.incidents@, sel, c))(#[trigger] s0.comments@[m]) <==> (
        |c: Comment| !spec_comment_doomed(s0.incidents@, sel, c))(s0.comments@[m])) by {
            let c = s0.comments@[m];
            if spec_comment_doomed(s1.incidents@, sel, c) {
                let k = choose|k: int|
                    0 <= k < s1.incidents@.len() && (#[trigger] s1.incidents@[k]).id
                        == c.incident_id && spec_selects(sel, s1.incidents@[k]);
                assert(s1.incidents@[k] == f(s0.incidents@[k]));
                assert(s0.incidents@[k].id == c.incident_id && spec_selects(
                    sel,
                    s0.incidents@[k],
                ));
            }
            if spec_comment_doomed(s0.incidents@, sel, c) {
                let k = choose|k: int|
                    0 <= k < s0.incidents@.len() && (#[trigger] s0.incidents@[k]).id
                        == c.incident_id && spec_selects(sel, s0.incidents@[k]);
                assert(s1.incidents@[k] == f(s0.incidents@[k]));
                assert(s1.incidents@[k].id == c.incident_id && spec_selects(
                    sel,
                    s1.incidents@[k],
                ));
            }
        }
        lemma_filter_congruent(
            s0.comments@,
            |c: Comment| !spec_comment_doomed(s1.incidents@, sel, c),
            |c: Comment| !spec_comment_doomed(s0.incidents@, sel, c),
        );
        assert forall|y: i32| spec_incident_id_doomed(s1.incidents@, sel, y)
            == spec_incident_id_doomed(s0.incidents@, sel, y) by {
            if spec_incident_id_doomed(s1.incidents@, sel, y) {
                let k = choose|k: int|
                    0 <= k < s1.incidents@.len() && (#[trigger] s1.incidents@[k]).id == y
                        && spec_selects(sel, s1.incidents@[k]);
                assert(s1.incidents@[k] == f(s0.incidents@[k]));
                assert(s0.incidents@[k].id == y && spec_selects(sel, s0.incidents@[k]));
            }
            if spec_incident_id_doomed(s0.incidents@, sel, y) {
                let k = choose|k: int|
                    0 <= k < s0.incidents@.len() && (#[trigger] s0.incidents@[k]).id == y
                        && spec_selects(sel, s0.incidents@[k]);
                assert(s1.incidents@[k] == f(s0.incidents@[k]));
                assert(s1.incidents@[k].id == y && spec_selects(sel, s1.incidents@[k]));
            }
        }
        assert forall|m: int| 0 <= m < s0.attachments@.len() implies ((|a: Attachment|
            spec_attachment_kept(s1.incidents@, s1.comments@, sel, a))(
        #[trigger] s0.attachments@[m]) <==> (|a: Attachment|
            spec_attachment_kept(s0.incidents@, s0.comments@, sel, a))(s0.attachments@[m])) by {
            let a = s0.attachments@[m];
            match a.comment_id {
                Some(y) => {
                    assert(spec_comment_id_doomed(s1.incidents@, s1.comments@, sel, y)
                        == spec_comment_id_doomed(s0.incidents@, s0.comments@, sel, y)) by {
                        if spec_comment_id_doomed(s1.incidents@, s1.comments@, sel, y) {
                            let k = choose|k: int|
                                0 <= k < s1.comments@.len() && (#[trigger] s1.comments@[k]).id
                                    == y && spec_incident_id_doomed(
                                    s1.incidents@,
                                    sel,
                                    s1.comments@[k].incident_id,
                                );
                            assert(spec_incident_id_doomed(
                                s0.incidents@,
                                sel,
                                s0.comments@[k].incident_id,
                            ));
                        }
                        if spec_comment_id_doomed(s0.incidents@, s0.comments@, sel, y) {
                            let k = choose|k: int|
                                0 <= k < s0.comments@.len() && (#[trigger] s0.comments@[k]).id
                                    == y && spec_incident_id_doomed(
                                    s0.incidents@,
                                    sel,
                                    s0.comments@[k].incident_id,
                                );
                            assert(spec_incident_id_doomed(
                                s1.incidents@,
                                sel,
                                s1.comments@[k].incident_id,
                            ));
                        }
                    }
                },
                None => {},
            }
        }
        lemma_filter_congruent(
            s0.attachments@,
            |a: Attachment| spec_attachment_kept(s1.incidents@, s1.comments@, sel, a),
            |a: Attachment| spec_attachment_kept(s0.incidents@, s0.comments@, sel, a),
        );
        // purging the user row keeps the remaining tables well-formed
        let pu = |u: User| u.id != id;
        let rid_u = |a: User, b: User| a.id != b.id;
        let remail = |a: User, b: User| a.email@ != b.email@;
        lemma_filter_preserves_pairwise(s2.users@, pu, rid_u);
        lemma_filter_preserves_pairwise(s2.users@, pu, remail);
        assert forall|i: int, j: int| 0 <= i < j < store.users@.len() implies store.users@[i].id
            != store.users@[j].id && store.users@[i].email@ != store.users@[j].email@ by {
            assert(rid_u(store.users@[i], store.users@[j]));
            assert(remail(store.users@[i], store.users@[j]));
        }
        let bnd_u = |u: User|
            1 <= u.id < s2.next_user_id && (u.reset_token is Some <==> u.reset_token_expiry
                is Some) && (u.company_id matches Some(c) ==> s2.has_company(c));
        assert forall|i: int| 0 <= i < s2.users@.len() implies #[trigger] bnd_u(
            s2.users@[i],
        ) by {}
        lemma_filter_preserves_forall(s2.users@, pu, bnd_u);
        assert forall|i: int| 0 <= i < store.users@.len() implies 1 <= (
        #[trigger] store.users@[i]).id < store.next_user_id && (store.users@[i].reset_token
            is Some <==> store.users@[i].reset_token_expiry is Some) && (
        store.users@[i].company_id matches Some(c) ==> store.has_company(c)) by {
            assert(bnd_u(store.users@[i]));
            match store.users@[i].company_id {
                Some(c) => {
                    assert(s2.has_company(c));
                    let m = choose|m: int|
                        0 <= m < s2.companies@.len() && s2.companies@[m].id == c;
                    assert(store.companies@[m].id == c);
                },
                None => {},
            }
        }
        assert(store.unique_ids());
        assert(store.unique_emails());
        assert(store.unique_ticket_codes());
        assert(store.reset_tokens_paired());
        assert(store.ids_bounded());
        assert(store.incident_tenants_nonnegative());
        assert forall|i: int| 0 <= i < store.comments@.len() implies store.has_incident(
            #[trigger] store.comments@[i].incident_id,
        ) by {
            assert(s2.has_incident(s2.comments@[i].incident_id));
        }
        assert forall|i: int| 0 <= i < store.attachments@.len() implies ((
        #[trigger] store.attachments@[i].incident_id) matches Some(n) ==> store.has_incident(n))
            && ((store.attachments@[i].comment_id) matches Some(n2) ==> store.has_comment(
            n2,
        )) by {
            match s2.attachments@[i].incident_id {
                Some(n) => {
                    assert(s2.has_incident(n));
                },
                None => {},
            }
            match s2.attachments@[i].comment_id {
                Some(n2) => {
                    assert(s2.has_comment(n2));
                },
                None => {},
            }
        }
        assert(store.referential_integrity());
        assert(store.wf());
    }
    Ok(())
}

} // verus!