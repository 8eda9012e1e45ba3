//! What the measurement promises, apart from how it is carried out.
//!
//! Each law speaks of inputs and results: which syntax decides, which files are
//! source, what stands under which heading.

pub mod analyses;
pub mod cleaning;
pub mod counts;
pub mod decisions;
pub mod descriptions;
pub mod docstrings;
pub mod files;
pub mod frameworks;
pub mod gleam_scopes;
pub mod javascript_scopes;
pub mod measures;
pub mod merging;
pub mod messages;
pub mod nodes;
pub mod numbers;
pub mod python_scopes;
pub mod recalling;
pub mod records;
pub mod reports;
pub mod repositories;
pub mod rust_scopes;
pub mod settling;
pub mod storage;
pub mod tables;
pub mod texts;
pub mod times;
pub mod views;
