use vstd::prelude::*;

use crate::entities::{Incident, Role, User};

verus! {

/// The effective row scope a role holds over incidents. `Deny` is the scope
/// of roles with no incident access; a missing tenant for a `Client`
/// degrades to "authored by me", never to global visibility.
#[derive(Clone, Copy, Debug, PartialEq, Eq, Structural)]
pub enum IncidentScope {
    All,
    Company(i32),
    SelfReported(i32),
    Assigned(i32),
    Deny,
}

/// The scope table for incidents, role by role: a superadmin sees all rows,
/// an agent only incidents assigned to them, a client their company's
/// incidents — or, with no company set, only self-reported ones. Any other
/// role is denied.
pub open spec fn spec_incident_scope(actor: User) -> IncidentScope {
    match actor.role {
        Role::Superadmin => IncidentScope::All,
        Role::Agent => IncidentScope::Assigned(actor.id),
        Role::Client => match actor.company_id {
            Some(cid) => IncidentScope::Company(cid),
            None => IncidentScope::SelfReported(actor.id),
        },
        Role::CompanyAdmin => IncidentScope::Deny,
    }
}

/// Whether a scope admits a given incident row.
pub open spec fn spec_scope_admits(scope: IncidentScope, inc: Incident) -> bool {
    match scope {
        IncidentScope::All => true,
        IncidentScope::Company(cid) => inc.company_id == cid,
        IncidentScope::SelfReported(uid) => inc.reporter_id == uid,
        IncidentScope::Assigned(uid) => inc.assignee_id == Some(uid),
        IncidentScope::Deny => false,
    }
}

/// The rows of the incident table an actor may see or touch.
pub open spec fn spec_incident_visible(actor: User, inc: Incident) -> bool {
    spec_scope_admits(spec_incident_scope(actor), inc)
}

/// Superadmin-only administration: company, user and ticket-type mutation,
/// incident deletion, notification-configuration writes.
pub open spec fn spec_is_admin(actor: User) -> bool {
    actor.role == Role::Superadmin
}

/// Company reads: a superadmin reads any company, others only their own.
pub open spec fn spec_can_read_company(actor: User, company_id: i32) -> bool {
    actor.role == Role::Superadmin || actor.company_id == Some(company_id)
}

/// User-record reads and updates: a superadmin touches any account, others
/// only their own.
pub open spec fn spec_can_touch_user(actor: User, user_id: i32) -> bool {
    actor.role == Role::Superadmin || actor.id == user_id
}

/// Notification-configuration reads are open to the administrative roles.
pub open spec fn spec_can_read_settings(actor: User) -> bool {
    actor.role == Role::Superadmin || actor.role == Role::CompanyAdmin
}

/// Computes the actor's incident scope per the policy table.
pub fn incident_scope(actor: &User) -> (r: IncidentScope)
    ensures
        r == spec_incident_scope(*actor),
{
    match actor.role {
        Role::Superadmin => IncidentScope::All,
        Role::Agent => IncidentScope::Assigned(actor.id),
        Role::Client => match actor.company_id {
            Some(cid) => IncidentScope::Company(cid),
            None => IncidentScope::SelfReported(actor.id),
        },
        Role::CompanyAdmin => IncidentScope::Deny,
    }
}

/// Tests one incident row against a scope.
pub fn scope_admits(scope: IncidentScope, inc: &Incident) -> (r: bool)
    ensures
        r == spec_scope_admits(scope, *inc),
{
    match scope {
        IncidentScope::All => true,
        IncidentScope::Company(cid) => inc.company_id == cid,
        IncidentScope::SelfReported(uid) => inc.reporter_id == uid,
        IncidentScope::Assigned(uid) => match inc.assignee_id {
            Some(a) => a == uid,
            None => false,
        },
        IncidentScope::Deny => false,
    }
}

/// Tests whether the actor may see or touch one incident row.
pub fn incident_visible(actor: &User, inc: &Incident) -> (r: bool)
    ensures
        r == spec_incident_visible(*actor, *inc),
{
    scope_admits(incident_scope(actor), inc)
}

pub fn is_admin(actor: &User) -> (r: bool)
    ensures
        r == spec_is_admin(*actor),
{
    actor.role == Role::Superadmin
}

pub fn can_read_company(actor: &User, company_id: i32) -> (r: bool)
    ensures
        r == spec_can_read_company(*actor, company_id),
{
    actor.role == Role::Superadmin || (match actor.company_id {
        Some(cid) => cid == company_id,
        None => false,
    })
}

pub fn can_touch_user(actor: &User, user_id: i32) -> (r: bool)
    ensures
        r == spec_can_touch_user(*actor, user_id),
{
    actor.role == Role::Superadmin || actor.id == user_id
}

pub fn can_read_settings(actor: &User) -> (r: bool)
    ensures
        r == spec_can_read_settings(*actor),
{
    actor.role == Role::Superadmin || actor.role == Role::CompanyAdmin
}

} // verus!
