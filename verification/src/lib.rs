//! Verified building blocks for exercising Jujutsu repositories: scratch
//! environments, tree and commit fixtures, readable tree dumps, and checks on
//! the outcome of rebases and transactions.
//!
//! The library decides and computes; it touches neither disk nor clock. What it
//! takes on trust from other crates stands in [`upstream`].

pub mod checks;
pub mod commits;
pub mod config;
pub mod dump;
pub mod environment;
pub mod ids;
pub mod rebase;
pub mod repo_path;
pub mod setup;
pub mod snapshot;
pub mod text;
pub mod transactions;
pub mod tree;
pub mod upstream;
