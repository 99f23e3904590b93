use vstd::prelude::*;

verus! {

/// The closed set of account roles. `CompanyAdmin` is a historical role that
/// is still stored but holds no incident scope of its own.
#[derive(Clone, Copy, Debug, PartialEq, Eq, Structural)]
pub enum Role {
    Superadmin,
    Agent,
    Client,
    CompanyAdmin,
}

/// Activity status shared by accounts and companies.
#[derive(Clone, Copy, Debug, PartialEq, Eq, Structural)]
pub enum AccountStatus {
    Active,
    Inactive,
}

#[derive(Clone, Copy, Debug, PartialEq, Eq, Structural)]
pub enum IncidentStatus {
    Open,
    InProgress,
    Resolved,
    Closed,
    Overdue,
}

#[derive(Clone, Copy, Debug, PartialEq, Eq, Structural)]
pub enum Priority {
    Low,
    Medium,
    High,
    Critical,
}

/// A tenant: the unit of data isolation for `Client` users.
#[derive(Debug, PartialEq)]
pub struct Company {
    pub id: i32,
    pub name: String,
    pub status: AccountStatus,
    pub address: Option<String>,
    pub contact_email: Option<String>,
    pub created_at: i64,
    pub updated_at: i64,
}

/// An account. `company_id == None` denotes a global/staff account.
/// A password hash of `None` means the first login is still pending.
#[derive(Debug, PartialEq)]
pub struct User {
    pub id: i32,
    pub name: String,
    pub email: String,
    pub role: Role,
    pub status: AccountStatus,
    pub password_hash: Option<String>,
    pub reset_token: Option<String>,
    pub reset_token_expiry: Option<i64>,
    pub company_id: Option<i32>,
    pub created_at: i64,
    pub updated_at: i64,
}

/// A category of incident with SLA targets in minutes.
#[derive(Debug, PartialEq)]
pub struct TicketType {
    pub id: i32,
    pub name: String,
    pub description: Option<String>,
    pub sla_response: i32,
    pub sla_resolution: i32,
    pub is_global: bool,
    pub created_at: i64,
    pub updated_at: i64,
}

/// A support ticket. `company_id == 0` marks an unscoped/global incident.
#[derive(Debug, PartialEq)]
pub struct Incident {
    pub id: i32,
    pub ticket_code: Option<String>,
    pub title: String,
    pub description: String,
    pub status: IncidentStatus,
    pub priority: Priority,
    pub reporter_id: i32,
    pub assignee_id: Option<i32>,
    pub company_id: i32,
    pub type_id: i32,
    pub created_at: i64,
    pub updated_at: i64,
}

#[derive(Debug, PartialEq)]
pub struct Comment {
    pub id: i32,
    pub content: String,
    pub incident_id: i32,
    pub author_id: i32,
    pub created_at: i64,
    pub updated_at: i64,
}

/// A stored file reference. Every attachment belongs to an incident; one
/// created alongside a comment references that comment as well.
#[derive(Debug, PartialEq)]
pub struct Attachment {
    pub id: i32,
    pub file_path: String,
    pub original_name: String,
    pub mime_type: String,
    pub incident_id: Option<i32>,
    pub comment_id: Option<i32>,
    pub created_at: i64,
    pub updated_at: i64,
}

/// The singleton SMTP configuration row.
#[derive(Debug, PartialEq)]
pub struct NotificationConfig {
    pub id: i32,
    pub smtp_host: String,
    pub smtp_port: i32,
    pub smtp_user: String,
    pub smtp_pass: String,
    pub sender_email: String,
    pub is_active: bool,
    pub created_at: i64,
    pub updated_at: i64,
}

impl Clone for Company {
    fn clone(&self) -> (r: Self)
        ensures
            r == *self,
    {
        Company {
            id: self.id,
            name: self.name.clone(),
            status: self.status,
            address: self.address.clone(),
            contact_email: self.contact_email.clone(),
            created_at: self.created_at,
            updated_at: self.updated_at,
        }
    }
}

impl Clone for User {
    fn clone(&self) -> (r: Self)
        ensures
            r == *self,
    {
        User {
            id: self.id,
            name: self.name.clone(),
            email: self.email.clone(),
            role: self.role,
            status: self.status,
            password_hash: self.password_hash.clone(),
            reset_token: self.reset_token.clone(),
            reset_token_expiry: self.reset_token_expiry,
            company_id: self.company_id,
            created_at: self.created_at,
            updated_at: self.updated_at,
        }
    }
}

impl Clone for TicketType {
    fn clone(&self) -> (r: Self)
        ensures
            r == *self,
    {
        TicketType {
            id: self.id,
            name: self.name.clone(),
            description: self.description.clone(),
            sla_response: self.sla_response,
            sla_resolution: self.sla_resolution,
            is_global: self.is_global,
            created_at: self.created_at,
            updated_at: self.updated_at,
        }
    }
}

impl Clone for Incident {
    fn clone(&self) -> (r: Self)
        ensures
            r == *self,
    {
        Incident {
            id: self.id,
            ticket_code: self.ticket_code.clone(),
            title: self.title.clone(),
            description: self.description.clone(),
            status: self.status,
            priority: self.priority,
            reporter_id: self.reporter_id,
            assignee_id: self.assignee_id,
            company_id: self.company_id,
            type_id: self.type_id,
            created_at: self.created_at,
            updated_at: self.updated_at,
        }
    }
}

impl Clone for Comment {
    fn clone(&self) -> (r: Self)
        ensures
            r == *self,
    {
        Comment {
            id: self.id,
            content: self.content.clone(),
            incident_id: self.incident_id,
            author_id: self.author_id,
            created_at: self.created_at,
            updated_at: self.updated_at,
        }
    }
}

impl Clone for Attachment {
    fn clone(&self) -> (r: Self)
        ensures
            r == *self,
    {
        Attachment {
            id: self.id,
            file_path: self.file_path.clone(),
            original_name: self.original_name.clone(),
            mime_type: self.mime_type.clone(),
            incident_id: self.incident_id,
            comment_id: self.comment_id,
            created_at: self.created_at,
            updated_at: self.updated_at,
        }
    }
}

impl Clone for NotificationConfig {
    fn clone(&self) -> (r: Self)
        ensures
            r == *self,
    {
        NotificationConfig {
            id: self.id,
            smtp_host: self.smtp_host.clone(),
            smtp_port: self.smtp_port,
            smtp_user: self.smtp_user.clone(),
            smtp_pass: self.smtp_pass.clone(),
            sender_email: self.sender_email.clone(),
            is_active: self.is_active,
            created_at: self.created_at,
            updated_at: self.updated_at,
        }
    }
}

} // verus!
