//! Multi-tenant incident-ticketing core: tenant/role scoping, cascade
//! deletion with referential integrity, status propagation, and
//! credential/token handling, verified over an in-memory store.
pub mod auth;
pub mod cascade;
pub mod codes;
pub mod comments;
pub mod companies;
pub mod dashboard;
pub mod entities;
pub mod error;
pub mod external;
pub mod incidents;
pub mod laws;
pub mod scope;
pub mod seq_lemmas;
pub mod settings;
pub mod store;
pub mod ticket_types;
pub mod users;
