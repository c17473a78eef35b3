//! Watches a project's release feed: reads the version name out of the
//! feed's JSON, keeps to release versions of the form `MAJOR.MINOR.PATCH`,
//! and decides when a newly seen release is persisted and announced.

pub mod fetch;
pub mod notify;
pub mod version;
pub mod workflow;
