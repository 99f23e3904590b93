use incident_core::cascade::{delete_company, delete_incident, delete_ticket_type, delete_user};
use incident_core::entities::{
    AccountStatus, Attachment, Comment, Company, Incident, IncidentStatus, Priority, Role,
    TicketType, User,
};
use incident_core::error::AppError;
use incident_core::store::Store;

fn user(id: i32, role: Role, company_id: Option<i32>) -> User {
    User {
        id,
        name: format!("user{}", id),
        email: format!("user{}@example.com", id),
        role,
        status: AccountStatus::Active,
        password_hash: None,
        reset_token: None,
        reset_token_expiry: None,
        company_id,
        created_at: 0,
        updated_at: 0,
    }
}

fn company(id: i32) -> Company {
    Company {
        id,
        name: format!("company{}", id),
        status: AccountStatus::Active,
        address: None,
        contact_email: None,
        created_at: 0,
        updated_at: 0,
    }
}

fn incident(id: i32, company_id: i32, reporter_id: i32, assignee_id: Option<i32>, type_id: i32) -> Incident {
    Incident {
        id,
        ticket_code: Some(format!("INC-{}-{}", company_id, id)),
        title: format!("incident {}", id),
        description: String::new(),
        status: IncidentStatus::Open,
        priority: Priority::Medium,
        reporter_id,
        assignee_id,
        company_id,
        type_id,
        created_at: id as i64,
        updated_at: id as i64,
    }
}

fn comment(id: i32, incident_id: i32, author_id: i32) -> Comment {
    Comment {
        id,
        content: format!("comment {}", id),
        incident_id,
        author_id,
        created_at: 0,
        updated_at: 0,
    }
}

fn attachment(id: i32, incident_id: Option<i32>, comment_id: Option<i32>) -> Attachment {
    Attachment {
        id,
        file_path: format!("uploads/{}.bin", id),
        original_name: format!("{}.bin", id),
        mime_type: String::from("application/octet-stream"),
        incident_id,
        comment_id,
        created_at: 0,
        updated_at: 0,
    }
}

fn ticket_type(id: i32) -> TicketType {
    TicketType {
        id,
        name: format!("type{}", id),
        description: None,
        sla_response: 30,
        sla_resolution: 240,
        is_global: true,
        created_at: 0,
        updated_at: 0,
    }
}

/// Two tenants; tenant 1 carries two incidents, each with comments and
/// attachments (one attachment tied to a comment); tenant 2 carries one of
/// each.
fn populated() -> Store {
    let mut s = Store::empty();
    s.companies.push(company(1));
    s.companies.push(company(2));
    s.next_company_id = 3;
    s.users.push(user(10, Role::Client, Some(1)));
    s.users.push(user(11, Role::Client, Some(1)));
    s.users.push(user(20, Role::Client, Some(2)));
    s.users.push(user(1, Role::Superadmin, None));
    s.next_user_id = 21;
    s.ticket_types.push(ticket_type(1));
    s.ticket_types.push(ticket_type(2));
    s.next_ticket_type_id = 3;
    s.incidents.push(incident(1, 1, 10, Some(11), 1));
    s.incidents.push(incident(2, 1, 11, None, 2));
    s.incidents.push(incident(3, 2, 20, Some(10), 1));
    s.next_incident_id = 4;
    s.comments.push(comment(1, 1, 10));
    s.comments.push(comment(2, 1, 11));
    s.comments.push(comment(3, 2, 11));
    s.comments.push(comment(4, 3, 20));
    s.next_comment_id = 5;
    s.attachments.push(attachment(1, Some(1), None));
    s.attachments.push(attachment(2, Some(1), Some(1)));
    s.attachments.push(attachment(3, Some(2), None));
    s.attachments.push(attachment(4, Some(3), Some(4)));
    s.next_attachment_id = 5;
    s
}

#[test]
fn company_deletion_leaves_no_residue() {
    let mut s = populated();
    let admin = user(1, Role::Superadmin, None);
    delete_company(&mut s, &admin, 1).unwrap();
    assert!(s.companies.iter().all(|c| c.id != 1));
    assert!(s.users.iter().all(|u| u.company_id != Some(1)));
    assert!(s.incidents.iter().all(|i| i.company_id != 1));
    // only tenant 2's rows remain, still referencing live parents
    assert_eq!(s.incidents.len(), 1);
    assert_eq!(s.incidents[0].id, 3);
    assert_eq!(s.comments.len(), 1);
    assert_eq!(s.comments[0].incident_id, 3);
    assert_eq!(s.attachments.len(), 1);
    assert_eq!(s.attachments[0].id, 4);
    assert_eq!(s.users.len(), 2);
    assert_eq!(s.companies.len(), 1);
}

#[test]
fn company_deletion_requires_superadmin() {
    let mut s = populated();
    let client = user(10, Role::Client, Some(1));
    assert_eq!(delete_company(&mut s, &client, 1).unwrap_err(), AppError::Forbidden);
    assert_eq!(s.companies.len(), 2);
}

#[test]
fn deleting_missing_company_is_not_found() {
    let mut s = populated();
    let admin = user(1, Role::Superadmin, None);
    assert_eq!(delete_company(&mut s, &admin, 9).unwrap_err(), AppError::NotFound);
}

#[test]
fn user_deletion_clears_assignments_but_keeps_those_incidents() {
    let mut s = populated();
    let admin = user(1, Role::Superadmin, None);
    // user 11 is assignee of incident 1 and reporter of incident 2
    delete_user(&mut s, &admin, 11).unwrap();
    let kept: Vec<i32> = s.incidents.iter().map(|i| i.id).collect();
    assert_eq!(kept, vec![1, 3]);
    assert_eq!(s.incidents[0].assignee_id, None);
    // incident 2 and its children are gone
    assert!(s.comments.iter().all(|c| c.incident_id != 2));
    assert!(s.attachments.iter().all(|a| a.incident_id != Some(2)));
    // comments user 11 wrote on surviving incidents stay
    assert!(s.comments.iter().any(|c| c.id == 2));
    assert!(s.users.iter().all(|u| u.id != 11));
}

#[test]
fn user_deletion_removes_reported_incident_with_children() {
    let mut s = populated();
    let admin = user(1, Role::Superadmin, None);
    // user 10 reported incident 1, which has comments 1 and 2 and attachments 1 and 2
    delete_user(&mut s, &admin, 10).unwrap();
    assert!(s.incidents.iter().all(|i| i.id != 1));
    assert!(s.comments.iter().all(|c| c.incident_id != 1));
    assert!(s.attachments.iter().all(|a| a.incident_id != Some(1)));
    assert!(s.attachments.iter().all(|a| a.comment_id != Some(1)));
    // incident 3 survives with its assignment to the deleted user cleared
    let inc3 = s.incidents.iter().find(|i| i.id == 3).unwrap();
    assert_eq!(inc3.assignee_id, None);
}

#[test]
fn self_deletion_is_refused() {
    let mut s = populated();
    let admin = user(1, Role::Superadmin, None);
    assert_eq!(delete_user(&mut s, &admin, 1).unwrap_err(), AppError::Validation);
    assert_eq!(s.users.len(), 4);
}

#[test]
fn user_deletion_requires_superadmin() {
    let mut s = populated();
    let client = user(10, Role::Client, Some(1));
    assert_eq!(delete_user(&mut s, &client, 11).unwrap_err(), AppError::Forbidden);
}

#[test]
fn ticket_type_deletion_cascades_through_its_incidents() {
    let mut s = populated();
    let admin = user(1, Role::Superadmin, None);
    // type 1 backs incidents 1 and 3
    delete_ticket_type(&mut s, &admin, 1).unwrap();
    assert!(s.ticket_types.iter().all(|t| t.id != 1));
    let kept: Vec<i32> = s.incidents.iter().map(|i| i.id).collect();
    assert_eq!(kept, vec![2]);
    assert!(s.comments.iter().all(|c| c.incident_id == 2));
    assert!(s.attachments.iter().all(|a| a.incident_id == Some(2)));
}

#[test]
fn incident_deletion_removes_comments_and_attachments_first() {
    let mut s = populated();
    let admin = user(1, Role::Superadmin, None);
    delete_incident(&mut s, &admin, 1).unwrap();
    assert!(s.incidents.iter().all(|i| i.id != 1));
    assert!(s.comments.iter().all(|c| c.incident_id != 1));
    assert!(s.attachments.iter().all(|a| a.incident_id != Some(1)));
    // the comment-linked attachment of incident 1 is gone too
    assert!(s.attachments.iter().all(|a| a.comment_id != Some(1)));
    // everything else survives
    assert_eq!(s.incidents.len(), 2);
}

#[test]
fn incident_deletion_requires_superadmin() {
    let mut s = populated();
    let agent = user(30, Role::Agent, None);
    assert_eq!(delete_incident(&mut s, &agent, 1).unwrap_err(), AppError::Forbidden);
}
