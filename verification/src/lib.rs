//! Reconciles two directories by file name, ignoring extensions.
//!
//! The library decides which files of a copying directory have a namesake in
//! a comparing directory, which have none, and in what order a copy run
//! lists the two directories, creates the destination and copies the matched
//! files. Reading directories and copying files is left to the caller, who
//! hands over what was read.

pub mod args;
pub mod config;
pub mod entry;
pub mod executor;
pub mod lister;
pub mod matching;
pub mod stem;
