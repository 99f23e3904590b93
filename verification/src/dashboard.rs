use vstd::prelude::*;

use crate::entities::{Incident, IncidentStatus, Priority, Role, User};
use crate::error::AppError;
use crate::seq_lemmas::{lemma_filter_take_step, lemma_take_all};
use crate::store::Store;

verus! {

/// The dashboard request: an optional tenant narrowing for the
/// administrative roles. The date bounds are accepted for interface
/// fidelity but do not narrow the metrics.
pub struct DashboardQuery {
    pub start_date: Option<String>,
    pub end_date: Option<String>,
    pub company_id: Option<i32>,
}

/// The role-scoped aggregate counts, and the most recent incidents in the
/// scope, newest first.
pub struct DashboardData {
    pub open: usize,
    pub resolved: usize,
    pub closed: usize,
    pub active: usize,
    pub critical: usize,
    pub overdue: usize,
    pub new_today: usize,
    pub backlog: usize,
    pub recent: Vec<Incident>,
}

/// Which incident rows feed an actor's dashboard: a superadmin or agent
/// sees all, optionally narrowed to one tenant; a client sees their
/// company's rows, or only self-reported ones without a company. Any other
/// role is refused.
pub open spec fn spec_dashboard_admits(actor: User, q: DashboardQuery, inc: Incident) -> bool {
    match actor.role {
        Role::Superadmin | Role::Agent => match q.company_id {
            Some(cid) => inc.company_id == cid,
            None => true,
        },
        Role::Client => match actor.company_id {
            Some(cid) => inc.company_id == cid,
            None => inc.reporter_id == actor.id,
        },
        Role::CompanyAdmin => false,
    }
}

/// An open item: not yet resolved, closed or overdue.
pub open spec fn spec_is_open(inc: Incident) -> bool {
    inc.status == IncidentStatus::Open || inc.status == IncidentStatus::InProgress
}

/// A high-urgency item.
pub open spec fn spec_is_critical(inc: Incident) -> bool {
    inc.priority == Priority::High || inc.priority == Priority::Critical
}

/// The rows the "recent" panel draws from: clients are not shown closed
/// items.
pub open spec fn spec_recent_pool(actor: User, scoped: Seq<Incident>) -> Seq<Incident> {
    if actor.role == Role::Client {
        scoped.filter((|inc: Incident| inc.status != IncidentStatus::Closed))
    } else {
        scoped
    }
}

/// Tests one row against the dashboard scope.
fn dashboard_admits(actor: &User, q: &DashboardQuery, inc: &Incident) -> (r: bool)
    ensures
        r == spec_dashboard_admits(*actor, *q, *inc),
{
    match actor.role {
        Role::Superadmin | Role::Agent => match q.company_id {
            Some(cid) => inc.company_id == cid,
            None => true,
        },
        Role::Client => match actor.company_id {
            Some(cid) => inc.company_id == cid,
            None => inc.reporter_id == actor.id,
        },
        Role::CompanyAdmin => false,
    }
}

/// Computes the role-scoped dashboard: counts by status and priority over
/// the rows in scope, and the five most recent items, newest first
/// (clients are not shown closed items there).
pub fn get_dashboard_metrics(store: &Store, actor: &User, q: &DashboardQuery) -> (r: Result<
    DashboardData,
    AppError,
>)
    ensures
        r is Ok <==> actor.role != Role::CompanyAdmin,
        actor.role == Role::CompanyAdmin ==> r == Err::<DashboardData, AppError>(
            AppError::Forbidden,
        ),
        r matches Ok(d) ==> {
            let scoped = store.incidents@.filter(
                (|inc: Incident| spec_dashboard_admits(*actor, *q, inc)),
            );
            let pool = spec_recent_pool(*actor, scoped);
            &&& d.open == scoped.filter((|inc: Incident| spec_is_open(inc))).len()
            &&& d.resolved == scoped.filter(
                (|inc: Incident| inc.status == IncidentStatus::Resolved),
            ).len()
            &&& d.closed == scoped.filter(
                (|inc: Incident| inc.status == IncidentStatus::Closed),
            ).len()
            &&& d.active == d.open
            &&& d.critical == scoped.filter((|inc: Incident| spec_is_critical(inc))).len()
            &&& d.overdue == scoped.filter(
                (|inc: Incident| inc.status == IncidentStatus::Overdue),
            ).len()
            &&& d.new_today == scoped.len()
            &&& d.backlog == d.open
            &&& d.recent@.len() == (if pool.len() < 5 {
                pool.len() as int
            } else {
                5
            })
            &&& forall|t: int| 0 <= t < d.recent@.len() ==> #[trigger] d.recent@[t] == pool[pool.len()
                - 1 - t]
        },
{
    if actor.role == Role::CompanyAdmin {
        return Err(AppError::Forbidden);
    }
    let ghost adm = |inc: Incident| spec_dashboard_admits(*actor, *q, inc);
    let mut scoped: Vec<Incident> = Vec::new();
    let n = store.incidents.len();
    for i in 0..n
        invariant
            n == store.incidents@.len(),
            adm == (|inc: Incident| spec_dashboard_admits(*actor, *q, inc)),
            scoped@ == store.incidents@.take(i as int).filter(adm),
    {
        proof {
            lemma_filter_take_step(store.incidents@, adm, i as int);
        }
        if dashboard_admits(actor, q, &store.incidents[i]) {
            scoped.push(store.incidents[i].clone());
        }
    }
    proof {
        lemma_take_all(store.incidents@);
    }
    let open = count_where_open(&scoped);
    let resolved = count_where_status(&scoped, IncidentStatus::Resolved);
    let closed = count_where_status(&scoped, IncidentStatus::Closed);
    let overdue = count_where_status(&scoped, IncidentStatus::Overdue);
    let critical = count_where_critical(&scoped);
    let new_today = scoped.len();

    // the recent panel: clients are not shown closed items
    let ghost not_closed = |inc: Incident| inc.status != IncidentStatus::Closed;
    let mut pool: Vec<Incident>;
    if actor.role == Role::Client {
        let mut filtered: Vec<Incident> = Vec::new();
        let sn = scoped.len();
        for i in 0..sn
            invariant
                sn == scoped@.len(),
                not_closed == (|inc: Incident| inc.status != IncidentStatus::Closed),
                filtered@ == scoped@.take(i as int).filter(not_closed),
        {
            proof {
                lemma_filter_take_step(scoped@, not_closed, i as int);
            }
            if !(scoped[i].status == IncidentStatus::Closed) {
                filtered.push(scoped[i].clone());
            }
        }
        proof {
            lemma_take_all(scoped@);
        }
        pool = filtered;
    } else {
        pool = scoped;
        proof {
            assert(pool@ == spec_recent_pool(*actor, store.incidents@.filter(adm)));
        }
    }
    let mut recent: Vec<Incident> = Vec::new();
    let mut j = pool.len();
    while j > 0 && recent.len() < 5
        invariant
            j <= pool@.len(),
            recent@.len() == pool@.len() - j,
            recent@.len() <= 5,
            forall|t: int|
                0 <= t < recent@.len() ==> #[trigger] recent@[t] == pool@[pool@.len() - 1 - t],
        decreases j,
    {
        j = j - 1;
        recent.push(pool[j].clone());
    }
    proof {
        assert(recent@.len() == (if pool@.len() < 5 {
            pool@.len() as int
        } else {
            5
        }));
    }
    Ok(
        DashboardData {
            open,
            resolved,
            closed,
            active: open,
            critical,
            overdue,
            new_today,
            backlog: open,
            recent,
        },
    )
}

/// Counts the open items (open or in progress).
fn count_where_open(v: &Vec<Incident>) -> (r: usize)
    ensures
        r == v@.filter((|inc: Incident| spec_is_open(inc))).len(),
{
    let ghost pred = |inc: Incident| spec_is_open(inc);
    let mut count: usize = 0;
    let n = v.len();
    for i in 0..n
        invariant
            n == v@.len(),
            pred == (|inc: Incident| spec_is_open(inc)),
            count == v@.take(i as int).filter(pred).len(),
            count <= i,
    {
        proof {
            lemma_filter_take_step(v@, pred, i as int);
        }
        if v[i].status == IncidentStatus::Open || v[i].status == IncidentStatus::InProgress {
            count = count + 1;
        }
    }
    proof {
        lemma_take_all(v@);
    }
    count
}

/// Counts the items in one exact status.
fn count_where_status(v: &Vec<Incident>, st: IncidentStatus) -> (r: usize)
    ensures
        r == v@.filter((|inc: Incident| inc.status == st)).len(),
{
    let ghost pred = |inc: Incident| inc.status == st;
    let mut count: usize = 0;
    let n = v.len();
    for i in 0..n
        invariant
            n == v@.len(),
            pred == (|inc: Incident| inc.status == st),
            count == v@.take(i as int).filter(pred).len(),
            count <= i,
    {
        proof {
            lemma_filter_take_step(v@, pred, i as int);
        }
        if v[i].status == st {
            count = count + 1;
        }
    }
    proof {
        lemma_take_all(v@);
    }
    count
}

/// Counts the high-urgency items (high or critical priority).
fn count_where_critical(v: &Vec<Incident>) -> (r: usize)
    ensures
        r == v@.filter((|inc: Incident| spec_is_critical(inc))).len(),
{
    let ghost pred = |inc: Incident| spec_is_critical(inc);
    let mut count: usize = 0;
    let n = v.len();
    for i in 0..n
        invariant
            n == v@.len(),
            pred == (|inc: Incident| spec_is_critical(inc)),
            count == v@.take(i as int).filter(pred).len(),
            count <= i,
    {
        proof {
            lemma_filter_take_step(v@, pred, i as int);
        }
        if v[i].priority == Priority::High || v[i].priority == Priority::Critical {
            count = count + 1;
        }
    }
    proof {
        lemma_take_all(v@);
    }
    count
}

} // verus!
