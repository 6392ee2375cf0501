//! Monocle layout and focus-back decisions for the sway window manager.
pub mod cli;
pub mod commands;
pub mod config;
pub mod events;
pub mod focus_back;
pub mod ipc;
pub mod pid;
pub mod policy;
pub mod policy_laws;
pub mod snapshot;
pub mod text;
pub mod tree;
