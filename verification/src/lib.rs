//! An Agent-friendly Confluence Cloud command line: stable JSON envelopes,
//! dry-run-first page writes and Markdown converted to storage HTML. This
//! crate holds the verified library; the program around it does the I/O.
pub mod auth;
pub mod cli;
pub mod client;
pub mod commands;
pub mod config;
pub mod content;
pub mod dry_run;
pub mod error;
pub mod json;
pub mod output;
pub mod redact;
pub mod text;
