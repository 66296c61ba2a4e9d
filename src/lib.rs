//! Verified core of an agent-client-protocol adapter for a coding-assistant
//! backend: reasoning aggregation, the prompt-turn state machine, session
//! lookup and the read-only write gate, workspace path resolution, staged
//! text edits and paged file reads.

pub mod text;
pub mod reasoning;
pub mod search;
pub mod edits;
pub mod paths;
pub mod session;
pub mod prompt;
pub mod read;
pub mod bridge;
pub mod diff_ranges;
pub mod descriptor;
pub mod events;
pub mod config;
pub mod models;
pub mod commands;
pub mod lifecycle;
pub mod modes;
pub mod status;
