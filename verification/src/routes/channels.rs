//! Requests on channels.

pub mod group_add_member;
pub mod group_remove_member;
