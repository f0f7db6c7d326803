//! A multi-room text chat core: credential store, room directory, session
//! registry, broadcast routing and the per-connection session state machine.

pub mod client;
pub mod command;
pub mod coordinator;
pub mod database;
pub mod directory;
pub mod registry;
pub mod room;
pub mod router;
pub mod session;
pub mod text;
pub mod user;
