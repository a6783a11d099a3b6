//! Locating, memoising and triaging day-sized slices of a remote, paginated,
//! chronologically sorted collection of issues and issue events.

pub mod error;
pub mod estimator;
pub mod github;
pub mod locator;
pub mod model;
pub mod report;
pub mod scan;
pub mod snapshot;
pub mod storage;
pub mod text;
pub mod time;
pub mod triage;
pub mod triage_cache;
