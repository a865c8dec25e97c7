//! Verified core of a command-line client for MCP servers: target parsing,
//! argument parsing and the decisions behind the interactive consoles.

pub mod args;
pub mod auth;
pub mod client;
pub mod command;
pub mod display;
pub mod console;
pub mod discovery;
pub mod error;
pub mod formatters;
pub mod interactive;
pub mod jsonargs;
pub mod listings;
pub mod mcp;
pub mod output;
pub mod shell;
pub mod target;
pub mod testserver;
pub mod text;
