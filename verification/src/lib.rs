//! The command routing and argument binding of a command-line client for a
//! remote service, with its two interactive shells: one that walks remote
//! directories and one that edits a profile.
//!
//! The library decides and computes; it never reads the terminal, the disk
//! or the network. A caller reads a line or receives an answer, hands it to
//! the library as a plain value, and carries out what the library says is
//! to be done.

pub mod args;
pub mod command;
pub mod commands;
pub mod config;
pub mod display;
pub mod editor;
pub mod error;
pub mod listing;
pub mod number;
pub mod params;
pub mod path;
pub mod profile;
pub mod prompt;
pub mod request;
pub mod shell;
pub mod text;
pub mod validation;
