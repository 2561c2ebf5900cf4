//! Verified core of a group-membership scraper.
//!
//! The library models the three parts of the tool that carry real logic:
//! the authentication state machine walked by the caller, the pagination
//! policy that drains a server-paged member list, and the delimited-text
//! export of the drained records.  Job execution against the remote
//! service is modelled by [`client::run_job`], a function over a plain
//! client model; the process that drives a real network client and a
//! real file system around these functions lives outside the library.

pub mod auth;
pub mod client;
pub mod export;
pub mod jobs;
pub mod member;
pub mod page;

pub use auth::{AuthState, PendingToken};
pub use jobs::{Job, Outcome};
pub use member::MemberRecord;
pub use page::PageEvent;
