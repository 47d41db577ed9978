//! Branch staleness logic for a git housekeeping tool.
//!
//! The library computes branch ages from commit timestamps, sorts branch
//! records by age, selects stale branches against a threshold, renders the
//! report lines, and decides interactive confirmations. All I/O — opening
//! the repository, fetching from the remote, enumerating branches, prompting
//! the user — lives outside the library and hands it plain values.

pub mod age;
pub mod branch;
pub mod confirm;
pub mod pathname;
pub mod report;
pub mod scan;
pub mod select;
pub mod seqs;
pub mod sort;
pub mod text;
