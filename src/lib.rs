//! The core of an IRC bot driven by Lua plugins.
//!
//! - `commands`: the operator's `/` commands;
//! - `backoff`: when to reconnect after a session ends;
//! - `inlet`: the slot through which producers reach the live session;
//! - `binding`: the session bound to the script runtime during a dispatch;
//! - `wire`: protocol lines in and out;
//! - `events`, `handlers`: the name and arguments of each event, and the
//!   handler table of a runtime generation;
//! - `engine`, `host`: the interpreter and the plugin manager that loads
//!   plugins, dispatches events and reloads;
//! - `plugins`: which files are plugins;
//! - `config`, `config_file`: the configuration.

pub mod backoff;
pub mod binding;
pub mod commands;
pub mod config;
pub mod config_file;
pub mod engine;
pub mod events;
pub mod handlers;
pub mod host;
pub mod inlet;
pub mod plugins;
pub mod wire;
