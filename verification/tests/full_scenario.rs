use incident_core::auth::{login, LoginRequest};
use incident_core::cascade::delete_company;
use incident_core::companies::{create_company, CreateCompanyRequest};
use incident_core::entities::{AccountStatus, Priority, Role};
use incident_core::error::AppError;
use incident_core::incidents::{create_incident, get_incident_by_id, NewIncident};
use incident_core::store::Store;
use incident_core::users::{create_user, ensure_default_admin, get_user_by_id, CreateUserRequest};

const SECRET: &str = "SECRET-REDACTED";

/// End to end: a superadmin creates a company and a client account under
/// it; the client logs in and files an incident, whose code carries the
/// tenant id; deleting the company then makes both the incident and the
/// account unresolvable.
#[test]
fn tenant_lifecycle_round_trip() {
    let mut s = Store::empty();
    ensure_default_admin(
        &mut s,
        String::from("Super Administrator"),
        String::from("admin@example.com"),
        bcrypt::hash("admin123", bcrypt::DEFAULT_COST).unwrap(),
        1,
    )
    .unwrap();
    let admin = s.users[0].clone();

    // the tenant gets id 7
    s.next_company_id = 7;
    let c = create_company(
        &mut s,
        &admin,
        CreateCompanyRequest {
            name: String::from("Acme"),
            address: None,
            contact_email: None,
            status: AccountStatus::Active,
        },
        100,
    )
    .unwrap();
    assert_eq!(c.id, 7);

    let (u, _) = create_user(
        &mut s,
        &admin,
        CreateUserRequest {
            name: String::from("Uma"),
            email: String::from("uma@acme.example"),
            password: Some(String::from("uma-pass")),
            role: Role::Client,
            company_id: Some(7),
            status: None,
        },
        101,
    )
    .unwrap();

    let session = login(
        &s,
        &LoginRequest {
            email: String::from("uma@acme.example"),
            password: String::from("uma-pass"),
        },
        102,
        SECRET,
    )
    .unwrap();
    assert_eq!(session.company_id, Some(7));

    let inc = create_incident(
        &mut s,
        &u,
        NewIncident {
            title: String::from("X"),
            description: String::new(),
            priority: Priority::Medium,
            type_id: Some(1),
            company_id: None,
            attachment: None,
        },
        1_700_000_000,
    )
    .unwrap();
    let code = inc.ticket_code.clone().unwrap();
    assert!(code.starts_with("INC-7-"));
    assert!(code["INC-7-".len()..].chars().all(|ch| ch.is_ascii_digit()));
    assert_eq!(get_incident_by_id(&s, &u, inc.id).unwrap().title, "X");

    delete_company(&mut s, &admin, 7).unwrap();
    assert_eq!(get_incident_by_id(&s, &admin, inc.id).unwrap_err(), AppError::NotFound);
    assert_eq!(get_user_by_id(&s, &admin, u.id).unwrap_err(), AppError::NotFound);
}
