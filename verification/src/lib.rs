//! Local staging of commits for code review in a Git repository: an index
//! that records which commits have been marked as trusted or distrusted, the
//! resolution of revision specifications to commits, and the steps of a
//! review that walks history commit by commit.

pub mod commands;
pub mod display;
pub mod entries;
pub mod equality;
pub mod error;
pub mod ids;
pub mod index;
pub mod laws;
pub mod local;
pub mod review;
pub mod revision;
pub mod term;
pub mod text;
