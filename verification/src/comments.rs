use vstd::prelude::*;
use vstd::string::StrSliceExecFns;

use crate::entities::{Attachment, Comment, User};
use crate::error::AppError;
use crate::incidents::NewAttachment;
use crate::seq_lemmas::{lemma_filter_take_step, lemma_take_all};
use crate::store::Store;

verus! {

/// The comments hanging off one incident, each with its own attachments,
/// in store order.
pub fn get_comments_by_incident(store: &Store, incident_id: i32) -> (r: Vec<(
    Comment,
    Vec<Attachment>,
)>)
    ensures
        ({
            let flt = store.comments@.filter((|c: Comment| c.incident_id == incident_id));
            &&& r@.len() == flt.len()
            &&& forall|k: int|
                0 <= k < flt.len() ==> (#[trigger] r@[k]).0 == flt[k] && r@[k].1@
                    == store.attachments@.filter(
                    (|a: Attachment| a.comment_id == Some(flt[k].id)),
                )
        }),
{
    let ghost pred = |c: Comment| c.incident_id == incident_id;
    let mut out: Vec<(Comment, Vec<Attachment>)> = Vec::new();
    let n = store.comments.len();
    for i in 0..n
        invariant
            n == store.comments@.len(),
            pred == (|c: Comment| c.incident_id == incident_id),
            out@.len() == store.comments@.take(i as int).filter(pred).len(),
            forall|k: int|
                0 <= k < out@.len() ==> (#[trigger] out@[k]).0 == store.comments@.take(
                    i as int,
                ).filter(pred)[k] && out@[k].1@ == store.attachments@.filter(
                    (|a: Attachment| a.comment_id == Some(
                        store.comments@.take(i as int).filter(pred)[k].id,
                    )),
                ),
    {
        proof {
            lemma_filter_take_step(store.comments@, pred, i as int);
        }
        let ghost before = store.comments@.take(i as int).filter(pred);
        let ghost after = store.comments@.take(i + 1 as int).filter(pred);
        if store.comments[i].incident_id == incident_id {
            let atts = attachments_of_comment(store, store.comments[i].id);
            out.push((store.comments[i].clone(), atts));
            proof {
                assert(after == before.push(store.comments@[i as int]));
                assert forall|k: int|
                    0 <= k < out@.len() implies (#[trigger] out@[k]).0 == after[k] && out@[k].1@
                    == store.attachments@.filter(
                    (|a: Attachment| a.comment_id == Some(after[k].id)),
                ) by {
                    if k < out@.len() - 1 {
                        assert(after[k] == before[k]);
                    } else {
                        assert(after[k] == store.comments@[i as int]);
                    }
                }
            }
        }
    }
    proof {
        lemma_take_all(store.comments@);
    }
    out
}

/// The attachments hanging off one comment, in store order.
pub fn attachments_of_comment(store: &Store, comment_id: i32) -> (r: Vec<Attachment>)
    ensures
        r@ == store.attachments@.filter((|a: Attachment| a.comment_id == Some(comment_id))),
{
    let ghost pred = |a: Attachment| a.comment_id == Some(comment_id);
    let mut out: Vec<Attachment> = Vec::new();
    let n = store.attachments.len();
    for i in 0..n
        invariant
            n == store.attachments@.len(),
            pred == (|a: Attachment| a.comment_id == Some(comment_id)),
            out@ == store.attachments@.take(i as int).filter(pred),
    {
        proof {
            lemma_filter_take_step(store.attachments@, pred, i as int);
        }
        let of_comment = match store.attachments[i].comment_id {
            Some(x) => x == comment_id,
            None => false,
        };
        if of_comment {
            out.push(store.attachments[i].clone());
        }
    }
    proof {
        lemma_take_all(store.attachments@);
    }
    out
}

/// Adds a comment, authored by the actor, under an existing incident.
/// Either text or a file must be present; an accompanying file becomes an
/// attachment row tied to both the incident and the new comment.
pub fn create_comment(
    store: &mut Store,
    actor: &User,
    incident_id: i32,
    content: String,
    attachment: Option<NewAttachment>,
    now: i64,
) -> (r: Result<Comment, AppError>)
    requires
        old(store).wf(),
    ensures
        final(store).wf(),
        r matches Err(e) ==> *final(store) == *old(store) && (e == AppError::Validation || e
            == AppError::NotFound || e == AppError::InternalError),
        content@.len() == 0 && attachment is None ==> r == Err::<Comment, AppError>(
            AppError::Validation,
        ),
        (content@.len() > 0 || attachment is Some) && !old(store).has_incident(incident_id) ==> r
            == Err::<Comment, AppError>(AppError::NotFound),
        (content@.len() > 0 || attachment is Some) && old(store).has_incident(incident_id) && old(
            store,
        ).next_comment_id < i32::MAX ==> r is Ok,
        r matches Ok(c) ==> {
            &&& c.id == old(store).next_comment_id
            &&& c.content == content
            &&& c.incident_id == incident_id
            &&& c.author_id == actor.id
            &&& c.created_at == now && c.updated_at == now
            &&& final(store).comments@ == old(store).comments@.push(c)
            &&& final(store).next_comment_id == old(store).next_comment_id + 1
            &&& final(store).incidents@ == old(store).incidents@
            &&& final(store).users@ == old(store).users@
            &&& final(store).companies@ == old(store).companies@
            &&& final(store).ticket_types@ == old(store).ticket_types@
            &&& (attachment matches Some(na) ==> old(store).next_attachment_id < i32::MAX ==> {
                &&& final(store).attachments@.len() == old(store).attachments@.len() + 1
                &&& final(store).attachments@.last() == (Attachment {
                    id: old(store).next_attachment_id,
                    file_path: na.file_path,
                    original_name: na.original_name,
                    mime_type: na.mime_type,
                    incident_id: Some(incident_id),
                    comment_id: Some(c.id),
                    created_at: now,
                    updated_at: now,
                })
                &&& final(store).attachments@.drop_last() == old(store).attachments@
            })
            &&& (attachment is None ==> final(store).attachments@ == old(store).attachments@)
        },
{
    let ghost s0 = *store;
    if content.as_str().unicode_len() == 0 && attachment.is_none() {
        return Err(AppError::Validation);
    }
    if store.find_incident(incident_id).is_none() {
        return Err(AppError::NotFound);
    }
    if store.next_comment_id == i32::MAX {
        return Err(AppError::InternalError);
    }
    let c = Comment {
        id: store.next_comment_id,
        content,
        incident_id,
        author_id: actor.id,
        created_at: now,
        updated_at: now,
    };
    let result = c.clone();
    store.comments.push(c);
    store.next_comment_id = store.next_comment_id + 1;
    proof {
        assert forall|i: int, j: int|
            0 <= i < j < store.comments@.len() implies store.comments@[i].id
            != store.comments@[j].id by {
            if j == store.comments@.len() - 1 {
                assert(store.comments@[i] == s0.comments@[i]);
            }
        }
        assert forall|i: int| 0 <= i < store.comments@.len() implies store.has_incident(
            #[trigger] store.comments@[i].incident_id,
        ) by {
            if i < store.comments@.len() - 1 {
                assert(store.comments@[i] == s0.comments@[i]);
                assert(s0.has_incident(s0.comments@[i].incident_id));
                let w = choose|w: int|
                    0 <= w < s0.incidents@.len() && s0.incidents@[w].id
                        == s0.comments@[i].incident_id;
                assert(store.incidents@[w].id == store.comments@[i].incident_id);
            } else {
                assert(s0.has_incident(incident_id));
                let w = choose|w: int|
                    0 <= w < s0.incidents@.len() && s0.incidents@[w].id == incident_id;
                assert(store.incidents@[w].id == incident_id);
            }
        }
        assert forall|i: int| 0 <= i < store.attachments@.len() implies ((
        #[trigger] store.attachments@[i].incident_id) matches Some(n) ==> store.has_incident(
            n,
        )) by {
            match s0.attachments@[i].incident_id {
                Some(n) => {
                    assert(s0.has_incident(n));
                    let w = choose|w: int| 0 <= w < s0.incidents@.len() && s0.incidents@[w].id == n;
                    assert(store.incidents@[w].id == n);
                },
                None => {},
            }
        }
        assert forall|i: int| 0 <= i < store.attachments@.len() implies ((
        #[trigger] store.attachments@[i].comment_id) matches Some(n2) ==> store.has_comment(
            n2,
        )) by {
            match s0.attachments@[i].comment_id {
                Some(n2) => {
                    assert(s0.has_comment(n2));
                    let w = choose|w: int| 0 <= w < s0.comments@.len() && s0.comments@[w].id == n2;
                    assert(store.comments@[w].id == n2);
                },
                None => {},
            }
        }
        assert forall|i: int|
            0 <= i < store.users@.len() implies ((#[trigger] store.users@[i].company_id)
            matches Some(cc) ==> store.has_company(cc)) by {
            match s0.users@[i].company_id {
                Some(cc) => {
                    assert(s0.has_company(cc));
                },
                None => {},
            }
        }
        assert(store.wf());
    }
    let ghost s1 = *store;
    match attachment {
        Some(na) => {
            if store.next_attachment_id < i32::MAX {
                let att = Attachment {
                    id: store.next_attachment_id,
                    file_path: na.file_path,
                    original_name: na.original_name,
                    mime_type: na.mime_type,
                    incident_id: Some(incident_id),
                    comment_id: Some(result.id),
                    created_at: now,
                    updated_at: now,
                };
                store.attachments.push(att);
                store.next_attachment_id = store.next_attachment_id + 1;
                proof {
                    assert forall|i: int, j: int|
                        0 <= i < j < store.attachments@.len() implies store.attachments@[i].id
                        != store.attachments@[j].id by {
                        if j == store.attachments@.len() - 1 {
                            assert(store.attachments@[i] == s1.attachments@[i]);
                        }
                    }
                    assert forall|i: int| 0 <= i < store.attachments@.len() implies ((
                    #[trigger] store.attachments@[i].incident_id) matches Some(n)
                        ==> store.has_incident(n)) by {
                        if i < store.attachments@.len() - 1 {
                            assert(store.attachments@[i] == s1.attachments@[i]);
                            match s1.attachments@[i].incident_id {
                                Some(n) => {
                                    assert(s1.has_incident(n));
                                    let w = choose|w: int|
                                        0 <= w < s1.incidents@.len() && s1.incidents@[w].id == n;
                                    assert(store.incidents@[w].id == n);
                                },
                                None => {},
                            }
                        } else {
                            assert(s1.has_incident(incident_id));
                            let w = choose|w: int|
                                0 <= w < s1.incidents@.len() && s1.incidents@[w].id == incident_id;
                            assert(store.incidents@[w].id == incident_id);
                        }
                    }
                    assert forall|i: int| 0 <= i < store.attachments@.len() implies ((
                    #[trigger] store.attachments@[i].comment_id) matches Some(n2)
                        ==> store.has_comment(n2)) by {
                        if i < store.attachments@.len() - 1 {
                            assert(store.attachments@[i] == s1.attachments@[i]);
                            match s1.attachments@[i].comment_id {
                                Some(n2) => {
                                    assert(s1.has_comment(n2));
                                    let w = choose|w: int|
                                        0 <= w < s1.comments@.len() && s1.comments@[w].id == n2;
                                    assert(store.comments@[w].id == n2);
                                },
                                None => {},
                            }
                        } else {
                            assert(s1.comments@[s1.comments@.len() - 1].id == result.id);
                            assert(store.comments@[s1.comments@.len() - 1].id == result.id);
                            assert(store.has_comment(result.id));
                        }
                    }
                    assert(store.wf());
                    assert(store.attachments@.drop_last() =~= s1.attachments@);
                }
            }
        },
        None => {},
    }
    Ok(result)
}

} // verus!
