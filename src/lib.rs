//! Server-side core of a small multi-client chat service: the wire codec,
//! the nickname registry, the per-connection session state machine and the
//! command dispatcher, each with a machine-checked contract.
use vstd::prelude::*;

pub mod text;
pub mod codec;
pub mod moderation;
pub mod registry;
pub mod notice;
pub mod session;
pub mod laws;
pub mod client;
