//! Permission resolution and realtime event distribution for a chat backend.
//!
//! The crate decides which operations an actor may perform on a server or a
//! channel, and routes state-change events to the connections that subscribed
//! to them. Every function carries a contract. Verus proves each of them but
//! those of the few functions that call into another crate, which say so.

use vstd::prelude::*;

pub mod calculator;
pub mod errors;
pub mod events;
pub mod gateway;
pub mod ids;
pub mod messages;
pub mod models;
pub mod permissions;
pub mod presence;
pub mod relationships;
pub mod reactions;
pub mod resolution;
pub mod roles;
pub mod router;
pub mod routes;
pub mod text;
pub mod topics;
pub mod users;

verus! {

/// Whether a boolean is `false`; used to leave unset flags out of a payload.
pub fn if_false(t: &bool) -> (r: bool)
    ensures
        r == !*t,
{
    !*t
}

} // verus!
