//! Pre-execution risk analysis for remote installers and package-manager commands.

pub mod analyzer;
pub mod command;
pub mod config;
pub mod digest;
pub mod executor;
pub mod pattern;
pub mod registry;
pub mod report;
pub mod reputation;
pub mod source;
pub mod text;
pub mod weburl;
