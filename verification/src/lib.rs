//! Compares CI workflow runtimes between a base branch and a candidate
//! branch, producing a deterministic, ordered comparison for a report.

pub mod compare;
pub mod job;
pub mod render;
pub mod summary;

pub use compare::Comparison;
pub use compare::ComparisonError;
pub use compare::ComparisonResult;
pub use compare::WorkflowComparisons;
pub use job::JobRecord;
pub use summary::PerformanceSummary;
pub use compare::build_comparison;
