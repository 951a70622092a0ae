//! Convention-driven management of git worktrees.
//!
//! Repositories ("roots") live under a `roots` directory and per-branch
//! worktrees ("trees") live under a `trees` directory, named by a
//! deterministic convention. This crate holds the verified core: canonical
//! tree naming, parsing of the porcelain worktree listing, default-branch
//! resolution, and the decision logic of creation, deletion and interactive
//! bulk cleanup. Running `git` itself, the terminal and the filesystem are
//! left to the surrounding application, which hands the outcomes of those
//! commands to the functions here as plain values.

pub mod application;
pub mod config;
pub mod roots;
pub mod trees;
pub mod utils;
