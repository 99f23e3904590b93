use incident_core::codes::{make_ticket_code, str_contains};
use incident_core::entities::{AccountStatus, Priority, Role, User};
use incident_core::error::AppError;
use incident_core::incidents::{create_incident, NewAttachment, NewIncident};
use incident_core::store::Store;

fn actor(id: i32, role: Role, company_id: Option<i32>) -> User {
    User {
        id,
        name: format!("user{}", id),
        email: format!("user{}@example.com", id),
        role,
        status: AccountStatus::Active,
        password_hash: None,
        reset_token: None,
        reset_token_expiry: None,
        company_id,
        created_at: 0,
        updated_at: 0,
    }
}

fn new_incident(title: &str, type_id: Option<i32>, company_id: Option<i32>) -> NewIncident {
    NewIncident {
        title: String::from(title),
        description: String::from("something broke"),
        priority: Priority::High,
        type_id,
        company_id,
        attachment: None,
    }
}

#[test]
fn ticket_code_formats_tenant_and_timestamp() {
    assert_eq!(make_ticket_code(7, 1234), "INC-7-1234");
    assert_eq!(make_ticket_code(305, 1700000000), "INC-305-1700000000");
}

#[test]
fn ticket_code_for_unscoped_incident_uses_global_marker() {
    assert_eq!(make_ticket_code(0, 5), "INC-GLB-5");
    assert_eq!(make_ticket_code(0, 0), "INC-GLB-0");
}

#[test]
fn substring_search_agrees_with_std() {
    assert!(str_contains("INC-7-1234", "INC-7"));
    assert!(str_contains("INC-7-1234", "7-12"));
    assert!(str_contains("INC-7-1234", ""));
    assert!(!str_contains("INC-7-1234", "INC-8"));
    assert!(!str_contains("ab", "abc"));
}

#[test]
fn created_incident_carries_the_derived_code() {
    let mut s = Store::empty();
    let client = actor(4, Role::Client, Some(9));
    let inc = create_incident(&mut s, &client, new_incident("login broken", Some(2), None), 1234)
        .unwrap();
    assert_eq!(inc.ticket_code.as_deref(), Some("INC-9-1234"));
    assert_eq!(inc.company_id, 9);
    assert_eq!(inc.reporter_id, 4);
    assert_eq!(inc.id, 1);
    assert_eq!(inc.status, incident_core::entities::IncidentStatus::Open);
}

#[test]
fn same_second_same_tenant_collides_as_validation_error() {
    let mut s = Store::empty();
    let client = actor(4, Role::Client, Some(9));
    create_incident(&mut s, &client, new_incident("first", Some(2), None), 1234).unwrap();
    let r = create_incident(&mut s, &client, new_incident("second", Some(2), None), 1234);
    assert_eq!(r.unwrap_err(), AppError::Validation);
    let r2 = create_incident(&mut s, &client, new_incident("second", Some(2), None), 1235);
    assert!(r2.is_ok());
}

#[test]
fn incident_creation_validates_title_and_type() {
    let mut s = Store::empty();
    let client = actor(4, Role::Client, Some(9));
    assert_eq!(
        create_incident(&mut s, &client, new_incident("", Some(2), None), 1).unwrap_err(),
        AppError::Validation
    );
    assert_eq!(
        create_incident(&mut s, &client, new_incident("ok", None, None), 1).unwrap_err(),
        AppError::Validation
    );
    assert!(s.incidents.is_empty());
}

#[test]
fn superadmin_may_file_for_a_named_tenant_or_globally() {
    let mut s = Store::empty();
    let admin = actor(1, Role::Superadmin, None);
    let a = create_incident(&mut s, &admin, new_incident("x", Some(1), Some(3)), 10).unwrap();
    assert_eq!(a.company_id, 3);
    let b = create_incident(&mut s, &admin, new_incident("y", Some(1), None), 11).unwrap();
    assert_eq!(b.company_id, 0);
    assert_eq!(b.ticket_code.as_deref(), Some("INC-GLB-11"));
}

#[test]
fn incident_file_upload_becomes_an_attachment_row() {
    let mut s = Store::empty();
    let client = actor(4, Role::Client, Some(9));
    let mut req = new_incident("with file", Some(2), None);
    req.attachment = Some(NewAttachment {
        file_path: String::from("uploads/1-shot.png"),
        original_name: String::from("shot.png"),
        mime_type: String::from("image/png"),
    });
    let inc = create_incident(&mut s, &client, req, 99).unwrap();
    assert_eq!(s.attachments.len(), 1);
    assert_eq!(s.attachments[0].incident_id, Some(inc.id));
    assert_eq!(s.attachments[0].comment_id, None);
    assert_eq!(s.attachments[0].original_name, "shot.png");
}
