//! Core of a node-local agent that supervises long-running game server
//! processes: validated server definitions and the operations on them, the
//! registry of live instances, the graceful-to-forced stop escalation, exit
//! reconciliation with autostart, the console backlog, and orphan detection.

pub mod text;
pub mod error;
pub mod config;
pub mod backlog;
pub mod registry;
pub mod escalation;
pub mod supervisor;
pub mod orphan;
pub mod status;
