//! Verified core of a command-line Reddit browser: input validation,
//! terminal-safe text rendering, comment-tree shaping, request planning
//! and the decisions of the API client.

pub mod client;
pub mod clock;
pub mod commands;
pub mod text;
pub mod validation;
pub mod sanitize;
pub mod format;
pub mod models;
pub mod render;
