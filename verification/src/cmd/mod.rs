//! The subcommands.

pub mod config;
