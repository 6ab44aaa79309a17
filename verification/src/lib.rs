//! A client for a terminal multiplexer's control mode, with the workspace
//! logic around it.
//!
//! The multiplexer keeps sessions, windows and panes. This library speaks
//! its line-oriented control protocol: it reassembles the byte stream
//! ([`reassembly`], [`stream`]), classifies each line ([`protocol`]), tells
//! events from the answers to commands ([`tracker`]), sends commands one at
//! a time ([`queue`]), and builds the command that each operation of the
//! session manager stands for ([`command`], [`session`], [`manager`],
//! [`invocation`], [`replies`]). Beside it stand the git operations of a
//! workspace, its worktree jobs, the monitor of agent sessions and the rules
//! for project files.
//!
//! The library reads no file and starts no process. Every function takes
//! what was read and gives back what is to be written or run; its contract
//! says exactly what.

pub mod codex_monitor;
pub mod codex_session;
pub mod command;
pub mod fields;
pub mod filesystem;
pub mod git_daily;
pub mod git_ops;
pub mod git_plan;
pub mod git_status;
pub mod git_worktree;
pub mod interaction_lock;
pub mod invocation;
pub mod json;
pub mod manager;
pub mod models;
pub mod protocol;
pub mod queue;
pub mod reassembly;
pub mod replies;
pub mod session;
pub mod sorting;
pub mod stream;
pub mod system;
pub mod text;
pub mod tracker;
pub mod worktree_init;
pub mod worktree_queue;
pub mod worktree_setup;
