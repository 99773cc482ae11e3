//! Workspace management for `jj` repositories: where workspaces live, how
//! they are created and removed, and which command-line action to take.

pub mod path;
pub mod settings;
pub mod text;
pub mod environment;
pub mod cli;
pub mod config;
