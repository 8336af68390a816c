//! A terminal Git client's core: repository queries, commit-graph layout,
//! and the application state machine that the terminal front end drives.

mod git;
pub mod app;
pub mod git_ops;
pub mod text;
pub mod ui;
pub mod input;
