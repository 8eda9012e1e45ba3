//! Code erosion: how much of the mass of a code base lies in complex callables.
//!
//! The mass of a callable is its cyclomatic complexity times the square root of
//! its source lines. Erosion is the share of the mass that lies in callables of
//! a complexity above ten, in percent. It is measured on commits of a Git
//! repository: one, two that are compared, or those at calendar checkpoints, for
//! the whole repository or for each of its modules.

pub mod analyzer;
pub mod cache;
pub mod calendar;
pub mod config;
pub mod digest;
pub mod format;
pub mod git;
pub mod globs;
pub mod history;
pub mod json;
pub mod languages;
pub mod laws;
pub mod metrics;
pub mod module_history;
pub mod modules;
pub mod ordered;
pub mod output;
pub mod records;
pub mod render;
pub mod report;
pub mod scope_history;
pub mod snapshot;
pub mod sort;
pub mod text;

pub use analyzer::Analyzer;
pub use report::{require_complete, MetricIdentity, Report};
pub use snapshot::{
    Coverage, FailedFile, LanguageCoverage, Snapshot, SnapshotAccumulator, Status, TopFunction,
};
