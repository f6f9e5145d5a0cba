//! The state behind the interactive shell.

pub mod commands;
pub mod handler;
pub mod user_input_manager;
