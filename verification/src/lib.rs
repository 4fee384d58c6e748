//! Verified core of a keyboard-driven terminal dashboard for browsing a
//! search cluster: scope catalogs (indices, aliases, data streams) with
//! filtering and selection reconciliation, a document browser with a
//! query/pagination state machine, a document rendering pipeline
//! (pretty / raw / flattened views with highlighting and truncation),
//! and the refresh orchestration that aggregates partial failures.
//!
//! Everything that talks to a terminal or to the cluster over HTTP lives
//! outside this crate; the functions here turn plain values into plain
//! values and carry contracts for what they compute.

pub mod browse;
pub mod json;
pub mod scope;
pub mod state;
pub mod text;
pub mod view;
