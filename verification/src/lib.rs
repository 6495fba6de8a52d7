//! An event-sourced task and project tracker: every change is an immutable
//! event, and projects, tasks and workflow statuses are rebuilt by replaying
//! their histories.

pub mod error;
pub mod shared;
pub mod projections;
pub mod events;
pub mod reconstruction;
pub mod storage;
pub mod commands;
pub mod app;
pub mod cli;
pub mod daemon;
