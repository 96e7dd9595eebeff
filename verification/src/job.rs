//! Jobs, their results, and the tracking stream.
//!
//! A job applies one plug-in to one blob. For every job exactly one
//! `JobInfo` is announced on the tracking stream before the job is
//! enqueued, and exactly one `JobResult` is emitted when it finishes,
//! whether it succeeded or failed.

use vstd::prelude::*;
use crate::blob::Blob;

verus! {

/// The ids of a batch are pairwise distinct: each names exactly one job.
pub open spec fn ids_distinct(ids: Seq<u128>) -> bool {
    forall|i: int, j: int| 0 <= i < j < ids.len() ==> #[trigger] ids[i] != #[trigger] ids[j]
}

/// The identity of one job: a unique id, the plug-in it runs, and the
/// originating file when the input is a whole file rather than a carve.
pub struct JobInfo {
    pub id: u128,
    pub module_name: String,
    pub file_path: Option<String>,
}

impl JobInfo {
    /// A copy of this job identity.
    pub fn duplicate(&self) -> (r: JobInfo)
        ensures
            r.id == self.id,
            r.module_name@ == self.module_name@,
            r.file_path is Some <==> self.file_path is Some,
            self.file_path matches Some(p) ==> (r.file_path matches Some(q) && q@ == p@),
    {
        JobInfo {
            id: self.id,
            module_name: self.module_name.clone(),
            file_path: match &self.file_path {
                Some(p) => Some(p.clone()),
                None => None,
            },
        }
    }
}

/// The outcome of one job: its id, and either a success message or an
/// error text. Exactly one result is emitted per announced job.
pub struct JobResult {
    pub id: u128,
    pub message: Option<String>,
    pub error: Option<String>,
}

/// One item of the tracking stream: a job announced, or a job finished.
pub enum JobTracking {
    JobInfo(JobInfo),
    JobResult(JobResult),
}

impl JobTracking {
    /// The job id this tracking item speaks of.
    pub open spec fn spec_id(&self) -> u128 {
        match self {
            JobTracking::JobInfo(info) => info.id,
            JobTracking::JobResult(result) => result.id,
        }
    }

    /// The job id this tracking item speaks of.
    pub fn id(&self) -> (r: u128)
        ensures
            r == self.spec_id(),
    {
        match self {
            JobTracking::JobInfo(info) => info.id,
            JobTracking::JobResult(result) => result.id,
        }
    }
}

/// One unit of work: a plug-in identity applied to one input blob. The
/// engine handles, channels and compiled module that accompany a job at
/// run time live in the unverified shell.
pub struct Job {
    pub info: JobInfo,
    pub blob: Blob,
}

/// Fuel spent by a job: the budget it started with minus what was left
/// when it returned.
pub fn fuel_used(budget: u64, fuel_end: u64) -> (r: u64)
    requires
        fuel_end <= budget,
    ensures
        r == budget - fuel_end,
{
    budget - fuel_end
}

/// The result of a job that ran to completion: a success message, no
/// error.
pub fn job_result_success(id: u128, message: String) -> (r: JobResult)
    ensures
        r.id == id,
        r.message matches Some(m) && m@ == message@,
        r.error is None,
{
    JobResult { id, message: Some(message), error: None }
}

/// The result of a job that failed, in the sandbox or before it could
/// run: an error text, no message. The job's failure is recorded and the
/// engine keeps running.
pub fn job_result_error(id: u128, error: String) -> (r: JobResult)
    ensures
        r.id == id,
        r.message is None,
        r.error matches Some(m) && m@ == error@,
{
    JobResult { id, message: None, error: Some(error) }
}

/// The executor's outcome decision: a sandbox trap (fuel exhausted,
/// out-of-bounds access, a resource-limit violation, a guest-reported
/// error) becomes a failed result carrying the trap's description; a
/// normal return becomes a success carrying the resource report.
pub fn job_outcome(id: u128, trap: Option<String>, report: String) -> (r: JobResult)
    ensures
        r.id == id,
        trap matches Some(t) ==> r.message is None && (r.error matches Some(e) && e@ == t@),
        trap is None ==> r.error is None && (r.message matches Some(m) && m@ == report@),
{
    match trap {
        Some(t) => job_result_error(id, t),
        None => job_result_success(id, report),
    }
}

} // verus!
