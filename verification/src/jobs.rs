//! The closed catalogue of jobs a caller may dispatch, and the outcomes
//! that come back, one per job.
//!
//! A job is created by the caller and handed to the bridge by value; the
//! single outcome it produces mirrors the job's variant.  A failed
//! remote operation reduces to an absence marker in the outcome — no
//! structured error crosses the reply channel by design.

use vstd::prelude::*;

use crate::auth::PendingToken;
use crate::member::MemberRecord;

verus! {

/// One unit of dispatched work, with its typed payload.
#[derive(Debug)]
pub enum Job {
    /// Ask the service to send a one-time login code to this phone
    /// number.
    RequestCode(String),
    /// Submit the one-time code the user received, together with the
    /// token the code request issued.
    SubmitCode(PendingToken, String),
    /// Retrieve the member list of the group with this identifier.
    FetchMembers(String),
    /// Write these records to the export file named after this group
    /// identifier.
    ExportMembers(String, Vec<MemberRecord>),
}

/// The single result delivered for a job.  Each variant mirrors one job
/// variant; a missing payload marks a failed remote operation.
#[derive(Debug, PartialEq, Eq)]
pub enum Outcome {
    /// `Some(Some(token))`: a code was sent and `token` continues the
    /// flow.  `Some(None)`: the client was already authorized, no code
    /// is needed.  `None`: the request failed.
    CodeRequested(Option<Option<PendingToken>>),
    /// `Some(())` on sign-in success, `None` on failure.
    CodeSubmitted(Option<()>),
    /// The group identifier, and on success the drained records with
    /// the total count the source reported.
    MembersFetched(String, Option<(Vec<MemberRecord>, usize)>),
    /// The group identifier and whether every record reached the file.
    Exported(String, bool),
}

/// The outcome variant answers the job variant, and an outcome that
/// names a group names the job's group.
pub open spec fn mirrors(job: Job, outcome: Outcome) -> bool {
    match job {
        Job::RequestCode(_) => outcome is CodeRequested,
        Job::SubmitCode(_, _) => outcome is CodeSubmitted,
        Job::FetchMembers(name) => outcome matches Outcome::MembersFetched(n, _) && n@ == name@,
        Job::ExportMembers(name, _) => outcome matches Outcome::Exported(n, _) && n@ == name@,
    }
}

} // verus!
