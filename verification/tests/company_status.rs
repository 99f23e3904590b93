use incident_core::companies::{
    create_company, get_all_companies, get_company_by_id, update_company, CreateCompanyRequest,
};
use incident_core::entities::{AccountStatus, Company, Role, User};
use incident_core::error::AppError;
use incident_core::store::Store;

fn user(id: i32, role: Role, company_id: Option<i32>) -> User {
    User {
        id,
        name: format!("user{}", id),
        email: format!("user{}@example.com", id),
        role,
        status: AccountStatus::Active,
        password_hash: None,
        reset_token: None,
        reset_token_expiry: None,
        company_id,
        created_at: 0,
        updated_at: 0,
    }
}

fn company(id: i32, status: AccountStatus) -> Company {
    Company {
        id,
        name: format!("company{}", id),
        status,
        address: None,
        contact_email: None,
        created_at: 0,
        updated_at: 0,
    }
}

fn payload(name: &str, status: AccountStatus) -> CreateCompanyRequest {
    CreateCompanyRequest {
        name: String::from(name),
        address: Some(String::from("1 Main St")),
        contact_email: None,
        status,
    }
}

fn two_company_store() -> Store {
    let mut s = Store::empty();
    s.companies.push(company(1, AccountStatus::Active));
    s.companies.push(company(2, AccountStatus::Active));
    s.next_company_id = 3;
    s.users.push(user(10, Role::Client, Some(1)));
    s.users.push(user(11, Role::Agent, Some(1)));
    s.users.push(user(20, Role::Client, Some(2)));
    s.users.push(user(30, Role::Agent, None));
    s.next_user_id = 31;
    s
}

#[test]
fn deactivating_a_company_deactivates_every_member() {
    let mut s = two_company_store();
    let admin = user(1, Role::Superadmin, None);
    update_company(&mut s, &admin, 1, payload("company1", AccountStatus::Inactive), 50).unwrap();
    for u in &s.users {
        if u.company_id == Some(1) {
            assert_eq!(u.status, AccountStatus::Inactive);
        } else {
            assert_eq!(u.status, AccountStatus::Active);
        }
    }
    assert_eq!(s.companies[0].status, AccountStatus::Inactive);
}

#[test]
fn reactivating_a_company_reactivates_nobody() {
    let mut s = two_company_store();
    let admin = user(1, Role::Superadmin, None);
    update_company(&mut s, &admin, 1, payload("company1", AccountStatus::Inactive), 50).unwrap();
    update_company(&mut s, &admin, 1, payload("company1", AccountStatus::Active), 60).unwrap();
    assert_eq!(s.companies[0].status, AccountStatus::Active);
    for u in &s.users {
        if u.company_id == Some(1) {
            assert_eq!(u.status, AccountStatus::Inactive);
        }
    }
}

#[test]
fn company_update_requires_superadmin() {
    let mut s = two_company_store();
    let agent = user(11, Role::Agent, Some(1));
    assert_eq!(
        update_company(&mut s, &agent, 1, payload("x", AccountStatus::Active), 50).unwrap_err(),
        AppError::Forbidden
    );
}

#[test]
fn company_update_rewrites_the_row() {
    let mut s = two_company_store();
    let admin = user(1, Role::Superadmin, None);
    let c = update_company(&mut s, &admin, 2, payload("renamed", AccountStatus::Active), 77)
        .unwrap();
    assert_eq!(c.name, "renamed");
    assert_eq!(c.updated_at, 77);
    assert_eq!(c.created_at, 0);
    assert_eq!(s.companies[1].name, "renamed");
}

#[test]
fn company_creation_assigns_sequential_ids() {
    let mut s = Store::empty();
    let admin = user(1, Role::Superadmin, None);
    let a = create_company(&mut s, &admin, payload("first", AccountStatus::Active), 5).unwrap();
    let b = create_company(&mut s, &admin, payload("second", AccountStatus::Active), 6).unwrap();
    assert_eq!(a.id, 1);
    assert_eq!(b.id, 2);
    assert_eq!(s.companies.len(), 2);
}

#[test]
fn company_list_reports_member_and_ticket_counts() {
    let mut s = two_company_store();
    s.incidents.push(incident_core::entities::Incident {
        id: 1,
        ticket_code: Some(String::from("INC-1-1")),
        title: String::from("t"),
        description: String::new(),
        status: incident_core::entities::IncidentStatus::Open,
        priority: incident_core::entities::Priority::Low,
        reporter_id: 10,
        assignee_id: None,
        company_id: 1,
        type_id: 1,
        created_at: 0,
        updated_at: 0,
    });
    s.next_incident_id = 2;
    let admin = user(1, Role::Superadmin, None);
    let list = get_all_companies(&s, &admin).unwrap();
    assert_eq!(list.len(), 2);
    assert_eq!(list[0].users_count, 2);
    assert_eq!(list[0].incidents_count, 1);
    assert_eq!(list[1].users_count, 1);
    assert_eq!(list[1].incidents_count, 0);
}

#[test]
fn company_read_is_scoped() {
    let s = two_company_store();
    let member = user(10, Role::Client, Some(1));
    assert_eq!(get_company_by_id(&s, &member, 1).unwrap().id, 1);
    assert_eq!(get_company_by_id(&s, &member, 2).unwrap_err(), AppError::Forbidden);
    let admin = user(1, Role::Superadmin, None);
    assert_eq!(get_company_by_id(&s, &admin, 9).unwrap_err(), AppError::NotFound);
}
