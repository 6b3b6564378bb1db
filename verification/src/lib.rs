//! Verified core of lelouch, a coding-focused orchestration system for agents.
pub mod beads;
pub mod cli;
pub mod config;
pub mod daemon;
pub mod dispatch;
pub mod error;
pub mod executor;
pub mod executors;
pub mod path;
pub mod scheduler;
pub mod shutdown;
pub mod status;
pub mod text;
pub mod vcs;
pub mod work_db;
pub mod worktree;
