use incident_core::comments::{create_comment, get_comments_by_incident};
use incident_core::dashboard::{get_dashboard_metrics, DashboardQuery};
use incident_core::entities::{
    AccountStatus, Incident, IncidentStatus, Priority, Role, User,
};
use incident_core::error::AppError;
use incident_core::incidents::{update_incident, NewAttachment, UpdateIncidentRequest};
use incident_core::settings::{
    get_notification_config, update_notification_config, EmailService, NotificationConfigRequest,
};
use incident_core::store::Store;
use incident_core::ticket_types::{
    create_ticket_type, get_all_ticket_types, update_ticket_type, CreateTicketTypeRequest,
};
use incident_core::users::{
    create_user, ensure_default_admin, get_user_by_id, update_user, CreateUserRequest,
};

fn actor(id: i32, role: Role, company_id: Option<i32>) -> User {
    User {
        id,
        name: format!("user{}", id),
        email: format!("user{}@example.com", id),
        role,
        status: AccountStatus::Active,
        password_hash: None,
        reset_token: None,
        reset_token_expiry: None,
        company_id,
        created_at: 0,
        updated_at: 0,
    }
}

fn incident(id: i32, company_id: i32, status: IncidentStatus, priority: Priority) -> Incident {
    Incident {
        id,
        ticket_code: Some(format!("INC-{}-{}", company_id, id)),
        title: format!("incident {}", id),
        description: String::new(),
        status,
        priority,
        reporter_id: 10,
        assignee_id: None,
        company_id,
        type_id: 1,
        created_at: id as i64,
        updated_at: id as i64,
    }
}

fn config_payload(pass: &str, active: bool) -> NotificationConfigRequest {
    NotificationConfigRequest {
        smtp_host: String::from("smtp.example.com"),
        smtp_port: 587,
        smtp_user: String::from("mailer"),
        smtp_pass: String::from(pass),
        sender_email: String::from("noreply@example.com"),
        is_active: active,
    }
}

#[test]
fn comment_creation_requires_content_or_file_and_a_live_incident() {
    let mut s = Store::empty();
    let author = actor(4, Role::Client, Some(1));
    assert_eq!(
        create_comment(&mut s, &author, 1, String::new(), None, 5).unwrap_err(),
        AppError::Validation
    );
    assert_eq!(
        create_comment(&mut s, &author, 1, String::from("hello"), None, 5).unwrap_err(),
        AppError::NotFound
    );
    s.incidents.push(incident(1, 1, IncidentStatus::Open, Priority::Low));
    s.next_incident_id = 2;
    let c = create_comment(&mut s, &author, 1, String::from("hello"), None, 5).unwrap();
    assert_eq!(c.author_id, 4);
    assert_eq!(c.incident_id, 1);
    assert_eq!(s.comments.len(), 1);
}

#[test]
fn comment_file_is_tied_to_comment_and_incident() {
    let mut s = Store::empty();
    s.incidents.push(incident(1, 1, IncidentStatus::Open, Priority::Low));
    s.next_incident_id = 2;
    let author = actor(4, Role::Client, Some(1));
    let att = Some(NewAttachment {
        file_path: String::from("uploads/2-log.txt"),
        original_name: String::from("log.txt"),
        mime_type: String::from("text/plain"),
    });
    let c = create_comment(&mut s, &author, 1, String::from("see log"), att, 6).unwrap();
    assert_eq!(s.attachments.len(), 1);
    assert_eq!(s.attachments[0].incident_id, Some(1));
    assert_eq!(s.attachments[0].comment_id, Some(c.id));
    let listed = get_comments_by_incident(&s, 1);
    assert_eq!(listed.len(), 1);
    assert_eq!(listed[0].0.id, c.id);
    assert_eq!(listed[0].1.len(), 1);
    assert_eq!(listed[0].1[0].original_name, "log.txt");
}

#[test]
fn incident_update_applies_only_provided_fields() {
    let mut s = Store::empty();
    s.incidents.push(incident(1, 1, IncidentStatus::Open, Priority::Low));
    s.next_incident_id = 2;
    let admin = actor(1, Role::Superadmin, None);
    let changes = UpdateIncidentRequest {
        title: Some(String::from("renamed")),
        description: None,
        status: Some(IncidentStatus::InProgress),
        priority: None,
        assignee_id: Some(42),
    };
    let inc = update_incident(&mut s, &admin, 1, changes, 99).unwrap();
    assert_eq!(inc.title, "renamed");
    assert_eq!(inc.status, IncidentStatus::InProgress);
    assert_eq!(inc.priority, Priority::Low);
    assert_eq!(inc.assignee_id, Some(42));
    assert_eq!(inc.updated_at, 99);
    assert_eq!(inc.company_id, 1);
}

#[test]
fn incident_update_enforces_scope() {
    let mut s = Store::empty();
    s.incidents.push(incident(1, 1, IncidentStatus::Open, Priority::Low));
    s.next_incident_id = 2;
    let foreign_client = actor(5, Role::Client, Some(2));
    let changes = UpdateIncidentRequest {
        title: None,
        description: None,
        status: None,
        priority: None,
        assignee_id: None,
    };
    assert_eq!(
        update_incident(&mut s, &foreign_client, 1, changes, 9).unwrap_err(),
        AppError::Forbidden
    );
}

#[test]
fn dashboard_counts_by_status_and_priority() {
    let mut s = Store::empty();
    s.incidents.push(incident(1, 1, IncidentStatus::Open, Priority::Low));
    s.incidents.push(incident(2, 1, IncidentStatus::InProgress, Priority::High));
    s.incidents.push(incident(3, 1, IncidentStatus::Resolved, Priority::Critical));
    s.incidents.push(incident(4, 2, IncidentStatus::Closed, Priority::Medium));
    s.incidents.push(incident(5, 2, IncidentStatus::Overdue, Priority::High));
    s.next_incident_id = 6;
    let admin = actor(1, Role::Superadmin, None);
    let q = DashboardQuery { start_date: None, end_date: None, company_id: None };
    let d = get_dashboard_metrics(&s, &admin, &q).unwrap();
    assert_eq!(d.open, 2);
    assert_eq!(d.resolved, 1);
    assert_eq!(d.closed, 1);
    assert_eq!(d.overdue, 1);
    assert_eq!(d.critical, 3);
    assert_eq!(d.new_today, 5);
    assert_eq!(d.active, 2);
    assert_eq!(d.backlog, 2);
    // newest first
    assert_eq!(d.recent.len(), 5);
    assert_eq!(d.recent[0].id, 5);
    assert_eq!(d.recent[4].id, 1);
    // narrowed to tenant 2
    let q2 = DashboardQuery { start_date: None, end_date: None, company_id: Some(2) };
    let d2 = get_dashboard_metrics(&s, &admin, &q2).unwrap();
    assert_eq!(d2.new_today, 2);
    assert_eq!(d2.closed, 1);
}

#[test]
fn client_dashboard_hides_closed_items_from_recent() {
    let mut s = Store::empty();
    s.incidents.push(incident(1, 1, IncidentStatus::Closed, Priority::Low));
    s.incidents.push(incident(2, 1, IncidentStatus::Open, Priority::Low));
    s.next_incident_id = 3;
    let client = actor(4, Role::Client, Some(1));
    let q = DashboardQuery { start_date: None, end_date: None, company_id: None };
    let d = get_dashboard_metrics(&s, &client, &q).unwrap();
    assert_eq!(d.new_today, 2);
    assert_eq!(d.recent.len(), 1);
    assert_eq!(d.recent[0].id, 2);
}

#[test]
fn notification_config_upsert_and_masking() {
    let mut s = Store::empty();
    let admin = actor(1, Role::Superadmin, None);
    let staff = actor(2, Role::CompanyAdmin, None);
    let client = actor(3, Role::Client, Some(1));
    // clients may not read the settings at all
    assert_eq!(get_notification_config(&s, &client, 0).unwrap_err(), AppError::Forbidden);
    // an absent row reads as a blank inactive default
    let blank = get_notification_config(&s, &admin, 7).unwrap();
    assert_eq!(blank.smtp_port, 587);
    assert!(!blank.is_active);
    // only a superadmin may write
    assert_eq!(
        update_notification_config(&mut s, &staff, config_payload("secret-1", true), 1)
            .unwrap_err(),
        AppError::Forbidden
    );
    let written = update_notification_config(&mut s, &admin, config_payload("secret-1", true), 1)
        .unwrap();
    assert_eq!(written.smtp_pass, "secret-1");
    // the non-superadmin reader sees the placeholder, the superadmin the value
    assert_eq!(get_notification_config(&s, &staff, 2).unwrap().smtp_pass, "******");
    assert_eq!(get_notification_config(&s, &admin, 2).unwrap().smtp_pass, "secret-1");
    // echoing the placeholder back keeps the stored secret
    let kept = update_notification_config(&mut s, &admin, config_payload("******", true), 3)
        .unwrap();
    assert_eq!(kept.smtp_pass, "secret-1");
    let kept2 = update_notification_config(&mut s, &admin, config_payload("", true), 4).unwrap();
    assert_eq!(kept2.smtp_pass, "secret-1");
    // the dispatcher sees the row only while it is active
    assert!(EmailService::active_config(&s).is_some());
    update_notification_config(&mut s, &admin, config_payload("******", false), 5).unwrap();
    assert!(EmailService::active_config(&s).is_none());
}

#[test]
fn ticket_type_crud_is_superadmin_only() {
    let mut s = Store::empty();
    let admin = actor(1, Role::Superadmin, None);
    let agent = actor(2, Role::Agent, None);
    let payload = CreateTicketTypeRequest {
        name: String::from("outage"),
        description: Some(String::from("service down")),
        sla_response: 15,
        sla_resolution: 120,
        is_global: true,
    };
    assert_eq!(
        create_ticket_type(
            &mut s,
            &agent,
            CreateTicketTypeRequest { name: String::from("x"), ..payload_clone(&payload) },
            1
        )
        .unwrap_err(),
        AppError::Forbidden
    );
    let t = create_ticket_type(&mut s, &admin, payload_clone(&payload), 1).unwrap();
    assert_eq!(t.id, 1);
    assert_eq!(t.sla_response, 15);
    assert_eq!(get_all_ticket_types(&s).len(), 1);
    let updated = update_ticket_type(
        &mut s,
        &admin,
        1,
        CreateTicketTypeRequest { sla_response: 30, ..payload_clone(&payload) },
        9,
    )
    .unwrap();
    assert_eq!(updated.sla_response, 30);
    assert_eq!(updated.updated_at, 9);
    assert_eq!(
        update_ticket_type(&mut s, &admin, 5, payload_clone(&payload), 9).unwrap_err(),
        AppError::NotFound
    );
}

fn payload_clone(p: &CreateTicketTypeRequest) -> CreateTicketTypeRequest {
    CreateTicketTypeRequest {
        name: p.name.clone(),
        description: p.description.clone(),
        sla_response: p.sla_response,
        sla_resolution: p.sla_resolution,
        is_global: p.is_global,
    }
}

#[test]
fn user_crud_scope_and_validation() {
    let mut s = Store::empty();
    let admin = actor(1, Role::Superadmin, None);
    s.users.push(actor(1, Role::Superadmin, None));
    s.next_user_id = 2;
    let payload = CreateUserRequest {
        name: String::from("Ana"),
        email: String::from("ana@example.com"),
        password: Some(String::from("pw-123")),
        role: Role::Client,
        company_id: None,
        status: None,
    };
    let (u, raw) = create_user(&mut s, &admin, clone_user_payload(&payload), 10).unwrap();
    assert_eq!(u.id, 2);
    assert_eq!(u.status, AccountStatus::Active);
    assert!(raw.is_none());
    assert!(u.password_hash.is_some());
    // duplicate email is refused
    assert_eq!(
        create_user(&mut s, &admin, clone_user_payload(&payload), 11).unwrap_err(),
        AppError::Validation
    );
    // a named tenant must exist
    let mut with_company = clone_user_payload(&payload);
    with_company.email = String::from("bob@example.com");
    with_company.company_id = Some(9);
    assert_eq!(create_user(&mut s, &admin, with_company, 12).unwrap_err(), AppError::Validation);
    // an omitted password draws a random 12-character one
    let mut generated = clone_user_payload(&payload);
    generated.email = String::from("carol@example.com");
    generated.password = None;
    let (u2, raw2) = create_user(&mut s, &admin, generated, 13).unwrap();
    assert_eq!(raw2.as_ref().unwrap().len(), 12);
    assert!(u2.password_hash.is_some());
    // self-reads are allowed, foreign reads are not
    let ana = get_user_by_id(&s, &u, 2).unwrap();
    assert_eq!(ana.email, "ana@example.com");
    assert_eq!(get_user_by_id(&s, &u, 3).unwrap_err(), AppError::Forbidden);
    // updates rewrite the row and stamp the instant
    let mut upd = clone_user_payload(&payload);
    upd.name = String::from("Ana Maria");
    upd.password = None;
    let u3 = update_user(&mut s, &admin, 2, upd, 20).unwrap();
    assert_eq!(u3.name, "Ana Maria");
    assert_eq!(u3.updated_at, 20);
    // taking another account's email is refused
    let mut steal = clone_user_payload(&payload);
    steal.email = String::from("carol@example.com");
    assert_eq!(update_user(&mut s, &admin, 2, steal, 21).unwrap_err(), AppError::Validation);
    // naming a tenant that does not exist is refused on update too
    let mut bad_company = clone_user_payload(&payload);
    bad_company.name = String::from("Ana Maria");
    bad_company.company_id = Some(9);
    assert_eq!(
        update_user(&mut s, &admin, 2, bad_company, 22).unwrap_err(),
        AppError::Validation
    );
}

fn clone_user_payload(p: &CreateUserRequest) -> CreateUserRequest {
    CreateUserRequest {
        name: p.name.clone(),
        email: p.email.clone(),
        password: p.password.clone(),
        role: p.role,
        company_id: p.company_id,
        status: p.status,
    }
}

#[test]
fn default_admin_is_installed_once() {
    let mut s = Store::empty();
    let hash = bcrypt::hash("admin-pass", bcrypt::DEFAULT_COST).unwrap();
    let added = ensure_default_admin(
        &mut s,
        String::from("Super Administrator"),
        String::from("admin@example.com"),
        hash.clone(),
        5,
    )
    .unwrap();
    assert!(added);
    assert_eq!(s.users.len(), 1);
    assert_eq!(s.users[0].role, Role::Superadmin);
    let again = ensure_default_admin(
        &mut s,
        String::from("Super Administrator"),
        String::from("admin@example.com"),
        hash,
        6,
    )
    .unwrap();
    assert!(!again);
    assert_eq!(s.users.len(), 1);
}
