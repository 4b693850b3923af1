//! Issue partitioning, display rollup and per-assignee time aggregation for
//! sprint and board reports of a project-tracking service.
pub mod issue;
pub mod partition;
pub mod rollup;
pub mod listing;
pub mod order;
pub mod users;
pub mod report;
pub mod query;
pub mod dates;
pub mod config;
pub mod laws;
pub mod table;

pub use issue::{Issue, IssueTimeTracking};
pub use partition::{SubtaskGroup, SubtaskMap};
pub use config::Error;
pub use report::TimeTracking;
pub use users::{User, Users};
