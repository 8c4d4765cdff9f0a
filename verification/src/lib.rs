//! Process inventory and lifecycle-control core.
//!
//! The library snapshots the operating system process table, classifies
//! processes as system services or protected critical processes, and
//! dispatches termination signals with typed error results. Sorting,
//! filtering, the protection policy and the kill-interaction state machine
//! are verified; the OS process-table reads and signal sends happen behind
//! small trusted wrappers around sysinfo and nix.

pub mod config;
pub mod manager;
pub mod policy;
pub mod process;
pub mod session;
pub mod text;
