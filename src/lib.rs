//! Core of a parallel gallery downloader: page naming, base-URL handling,
//! job planning and aggregation of per-page results.
//!
//! Every page `1..=N` becomes one job; each job ends in one result, and the
//! run collects all of them (collect-all: one page's failure never stops the
//! others). Page files are named by the index padded to three digits, with
//! wider indices written in full, so names never collide.

pub mod address;
pub mod error;
pub mod naming;
pub mod outcome;
pub mod plan;

pub use address::{normalize_base, parse_base, resource_url};
pub use error::{ConfigError, JobError};
pub use naming::page_file_name;
pub use outcome::{aggregate, check_status, FetchResult, RunOutcome};
pub use plan::{make_job, plan_jobs, Job};
