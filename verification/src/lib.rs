//! Comparison and diff-report engine for two snapshots of a generated file
//! tree.
//!
//! Given two labeled snapshots (path -> text content), the library computes
//! which paths were added, removed, changed or left identical
//! ([`compare::compare_sites`]), computes a line-level diff for each changed
//! path and reclassifies whitespace-only churn as identical
//! ([`stats::partition_report`]), aggregates change statistics
//! ([`stats::summarize`]), and renders the whole result as a single
//! self-contained HTML page ([`report::render_report`]).

pub mod compare;
pub mod htmldoc;
pub mod linediff;
pub mod report;
pub mod seqext;
pub mod snapshot;
pub mod stats;
