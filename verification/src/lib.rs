//! Tasklane: a personal task aggregator for Linear and GitHub.
//!
//! This crate holds the verified core of the aggregator: parsing of the
//! GitHub pagination header, conversion of fetched issues into tasks, the
//! decisions taken while fetching and syncing, the secret token store and
//! the task cache on top of SQLite.

pub mod text;
pub mod github;
pub mod storage;
pub mod json;
pub mod http;
pub mod linear;
pub mod sqlite;
pub mod db;
pub mod sync;
