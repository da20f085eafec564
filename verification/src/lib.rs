//! Scanning, classification and update selection for GitHub Actions `uses:` references.
pub mod text;
pub mod action_ref;
pub mod cli;
pub mod config;
pub mod scanner;
pub mod semver_api;
pub mod hashing;
pub mod cache;
pub mod report;
pub mod metadata;
pub mod versions;
pub mod globs;
pub mod tag_memo;
pub mod select;
pub mod loads;
pub mod providers;
pub mod lookups;
pub mod rewrite;
pub mod yaml;
pub mod discover;
pub mod policy;
pub mod outcome;
pub mod init;
