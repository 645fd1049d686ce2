//! Requests on servers.

pub mod invites_fetch;
pub mod member_edit;
