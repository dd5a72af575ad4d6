//! Launches and supervises the OpenClaw gateway, which it manages as an ordinary
//! process: it is run in the foreground, watched by its process and its port,
//! and stopped by ending it.
//!
//! The crate decides and computes; it runs no program, opens no connection and
//! touches no file. Each procedure that alternates with such work is a function
//! from the step that was taken and what came of it to the step that comes next.
pub mod binary;
pub mod commands;
pub mod config;
pub mod environment;
pub mod install;
pub mod launch;
pub mod numbers;
pub mod paths;
pub mod pid;
pub mod registry;
pub mod status;
pub mod text;
pub mod wait;
