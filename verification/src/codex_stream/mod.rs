//! Narration of a Codex session while its turn runs, through the app-server.

pub mod proto;
pub mod attached;
pub mod registry;
pub mod endpoint;
pub mod supervisor;
pub mod client;
