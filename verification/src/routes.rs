//! What each request is answered with, once storage has been read or
//! written for it.

pub mod channels;
pub mod servers;
pub mod user;
