//! Keeps version literals in text files in step with the latest tag that a
//! release registry publishes for them.
//!
//! A line opts in by carrying a marker comment that names the registry entry,
//! for example `app_version = 1.4.0 // [cup] GitHub acme/widget`.
//!
//! A run has three steps, and this crate decides what happens in each:
//!
//! 1. [`update::update`] scans the files for annotations
//!    ([`cup_parser`]) and groups the targets by file.
//! 2. For each target the registry is asked for the latest tag, by the
//!    lookups that [`resolver`] prescribes.
//! 3. [`update::process_file_targets`] rewrites the annotated lines of one
//!    file ([`version_extractor`]) and says what is to be written back and
//!    what is to be reported ([`report`]).
//!
//! The crate touches neither files nor the network: the caller reads, asks
//! and writes. Regular expressions are left to the `regex` crate, behind
//! [`regex_search`]; everything else is verified.

pub mod cup_parser;
pub mod decimal;
pub mod file_finder;
pub mod init;
pub mod lines;
pub mod offsets;
pub mod regex_search;
pub mod report;
pub mod resolver;
pub mod text;
pub mod update;
pub mod version_extractor;
