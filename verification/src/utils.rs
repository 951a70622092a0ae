//! Shared helpers: text primitives, the git command model, command errors
//! and plain-text formatting of listings.

pub mod cli_ui;
pub mod exec;
pub mod git;
pub mod path;
pub mod text;
