use incident_core::entities::{AccountStatus, Incident, IncidentStatus, Priority, Role, User};
use incident_core::error::AppError;
use incident_core::incidents::{get_all_incidents, get_incident_by_id, IncidentQuery};
use incident_core::store::Store;

fn user(id: i32, role: Role, company_id: Option<i32>) -> User {
    User {
        id,
        name: format!("user{}", id),
        email: format!("user{}@example.com", id),
        role,
        status: AccountStatus::Active,
        password_hash: None,
        reset_token: None,
        reset_token_expiry: None,
        company_id,
        created_at: 0,
        updated_at: 0,
    }
}

fn incident(id: i32, company_id: i32, reporter_id: i32, assignee_id: Option<i32>) -> Incident {
    Incident {
        id,
        ticket_code: Some(format!("INC-{}-{}", company_id, id)),
        title: format!("incident {}", id),
        description: String::new(),
        status: IncidentStatus::Open,
        priority: Priority::Medium,
        reporter_id,
        assignee_id,
        company_id,
        type_id: 1,
        created_at: id as i64,
        updated_at: id as i64,
    }
}

fn store_with_two_tenants() -> Store {
    let mut s = Store::empty();
    s.incidents.push(incident(1, 1, 10, Some(30)));
    s.incidents.push(incident(2, 2, 20, None));
    s.incidents.push(incident(3, 1, 11, None));
    s.next_incident_id = 4;
    s
}

fn empty_query() -> IncidentQuery {
    IncidentQuery {
        company_id: None,
        status: None,
        priority: None,
        assignee_id: None,
        ticket_code: None,
    }
}

#[test]
fn client_cannot_read_foreign_incident_by_id() {
    let s = store_with_two_tenants();
    let client = user(100, Role::Client, Some(1));
    let r = get_incident_by_id(&s, &client, 2);
    assert_eq!(r.unwrap_err(), AppError::Forbidden);
}

#[test]
fn client_reads_own_company_incident_by_id() {
    let s = store_with_two_tenants();
    let client = user(100, Role::Client, Some(1));
    let r = get_incident_by_id(&s, &client, 1).unwrap();
    assert_eq!(r.id, 1);
    assert_eq!(r.company_id, 1);
}

#[test]
fn missing_incident_is_not_found() {
    let s = store_with_two_tenants();
    let admin = user(1, Role::Superadmin, None);
    assert_eq!(get_incident_by_id(&s, &admin, 99).unwrap_err(), AppError::NotFound);
}

#[test]
fn agent_reads_only_assigned_incident() {
    let s = store_with_two_tenants();
    let agent = user(30, Role::Agent, None);
    assert_eq!(get_incident_by_id(&s, &agent, 1).unwrap().id, 1);
    assert_eq!(get_incident_by_id(&s, &agent, 2).unwrap_err(), AppError::Forbidden);
}

#[test]
fn client_list_is_scoped_to_own_company() {
    let s = store_with_two_tenants();
    let client = user(100, Role::Client, Some(1));
    let list = get_all_incidents(&s, &client, &empty_query()).unwrap();
    assert_eq!(list.len(), 2);
    assert!(list.iter().all(|i| i.company_id == 1));
}

#[test]
fn client_without_company_sees_only_self_reported() {
    let s = store_with_two_tenants();
    let orphan = user(20, Role::Client, None);
    let list = get_all_incidents(&s, &orphan, &empty_query()).unwrap();
    assert_eq!(list.len(), 1);
    assert_eq!(list[0].id, 2);
}

#[test]
fn agent_list_is_scoped_to_assignments() {
    let s = store_with_two_tenants();
    let agent = user(30, Role::Agent, None);
    let list = get_all_incidents(&s, &agent, &empty_query()).unwrap();
    assert_eq!(list.len(), 1);
    assert_eq!(list[0].id, 1);
}

#[test]
fn unknown_role_is_forbidden_on_incident_list() {
    let s = store_with_two_tenants();
    let other = user(50, Role::CompanyAdmin, Some(1));
    assert_eq!(get_all_incidents(&s, &other, &empty_query()).unwrap_err(), AppError::Forbidden);
}

#[test]
fn superadmin_sees_all_and_can_narrow_by_company() {
    let s = store_with_two_tenants();
    let admin = user(1, Role::Superadmin, None);
    let all = get_all_incidents(&s, &admin, &empty_query()).unwrap();
    assert_eq!(all.len(), 3);
    let mut q = empty_query();
    q.company_id = Some(2);
    let narrowed = get_all_incidents(&s, &admin, &q).unwrap();
    assert_eq!(narrowed.len(), 1);
    assert_eq!(narrowed[0].id, 2);
}

#[test]
fn status_and_priority_filters_narrow_the_list() {
    let mut s = store_with_two_tenants();
    s.incidents[0].status = IncidentStatus::Resolved;
    s.incidents[2].priority = Priority::Critical;
    let admin = user(1, Role::Superadmin, None);
    let mut q = empty_query();
    q.status = Some(vec![IncidentStatus::Resolved]);
    let resolved = get_all_incidents(&s, &admin, &q).unwrap();
    assert_eq!(resolved.len(), 1);
    assert_eq!(resolved[0].id, 1);
    let mut q2 = empty_query();
    q2.priority = Some(Priority::Critical);
    let critical = get_all_incidents(&s, &admin, &q2).unwrap();
    assert_eq!(critical.len(), 1);
    assert_eq!(critical[0].id, 3);
}

#[test]
fn ticket_code_filter_matches_substrings() {
    let s = store_with_two_tenants();
    let admin = user(1, Role::Superadmin, None);
    let mut q = empty_query();
    q.ticket_code = Some(String::from("INC-2"));
    let list = get_all_incidents(&s, &admin, &q).unwrap();
    assert_eq!(list.len(), 1);
    assert_eq!(list[0].id, 2);
}
