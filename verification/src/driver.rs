//! Ingestion planning: which jobs a file or a carve gives rise to.
//!
//! For every admitted input, one job is planned per loaded plug-in, each
//! under a fresh unique id. The driver announces every planned job on the
//! tracking stream before it enqueues the job, so the tracker's
//! outstanding set is never empty while work is in flight. A file that
//! cannot be admitted still answers its planned announcements: one failed
//! result per planned job, under the same ids.

use vstd::prelude::*;
use crate::job::{JobInfo, JobResult, ids_distinct};
use crate::types::HostError;

verus! {

/// Relies on `uuid::Uuid::new_v4` and `Uuid::as_u128`: a freshly drawn
/// random id. Nothing is promised of its value; a batch of drawn ids is
/// checked for collisions before use.
#[verifier::external_body]
fn fresh_id() -> u128 {
    uuid::Uuid::new_v4().as_u128()
}

/// Decides whether a batch of ids is pairwise distinct: the check behind
/// [`fresh_distinct_ids`], verified for every batch of ids, however it
/// was drawn.
pub fn ids_all_distinct(ids: &Vec<u128>) -> (r: bool)
    ensures
        r == ids_distinct(ids@),
{
    let mut a: usize = 0;
    while a < ids.len()
        invariant
            a <= ids@.len(),
            forall|i2: int, j2: int|
                0 <= i2 < j2 < ids@.len() && i2 < a ==> #[trigger] ids@[i2] != #[trigger] ids@[j2],
        decreases ids@.len() - a,
    {
        let mut b: usize = a + 1;
        while b < ids.len()
            invariant
                a < b <= ids@.len(),
                forall|j2: int| a < j2 < b ==> ids@[a as int] != #[trigger] ids@[j2],
            decreases ids@.len() - b,
        {
            if ids[a] == ids[b] {
                proof {
                    assert(!ids_distinct(ids@));
                }
                return false;
            }
            b = b + 1;
        }
        a = a + 1;
    }
    true
}

/// Draws `n` fresh job ids and checks them for collisions; a batch with a
/// repeated id cannot be used and is reported as an error. A batch of at
/// most one id cannot collide and always succeeds; for larger batches the
/// ids come from the random-id source and success depends on the draw.
/// (With random 128-bit ids a collision does not happen in practice; the
/// check makes the distinctness a fact rather than an assumption.)
pub fn fresh_distinct_ids(n: usize) -> (r: Result<Vec<u128>, HostError>)
    ensures
        r matches Ok(ids) ==> ids@.len() == n && ids_distinct(ids@),
        r matches Err(e) ==> e is IdCollision,
        n <= 1 ==> r is Ok,
{
    let mut ids: Vec<u128> = Vec::new();
    let mut i: usize = 0;
    while i < n
        invariant
            i <= n,
            ids@.len() == i,
        decreases n - i,
    {
        ids.push(fresh_id());
        i = i + 1;
    }
    if ids_all_distinct(&ids) {
        Ok(ids)
    } else {
        proof {
            assert(n > 1);
        }
        Err(HostError::IdCollision)
    }
}

/// The planned jobs of one input: for the `k`-th loaded plug-in, a job
/// under the `k`-th id, carrying the given originating file path (a whole
/// file) or none (a carve).
pub open spec fn planned_jobs_ok(
    infos: Seq<JobInfo>,
    ids: Seq<u128>,
    modules: Seq<Seq<char>>,
    file_path: Option<Seq<char>>,
) -> bool {
    &&& infos.len() == modules.len()
    &&& forall|k: int|
        0 <= k < infos.len() ==> ((#[trigger] infos[k]).id == ids[k] && infos[k].module_name@
            == modules[k] && (match file_path {
            Some(p) => infos[k].file_path matches Some(q) && q@ == p,
            None => infos[k].file_path is None,
        }))
}

/// Plans the jobs of one input: one per loaded plug-in, under the given
/// ids, all carrying `file_path` as their origin (none for a carve). The
/// caller announces every returned `JobInfo` on the tracking stream
/// before enqueuing the matching job.
pub fn plan_jobs(modules: &Vec<String>, ids: &Vec<u128>, file_path: Option<&String>) -> (r: Vec<
    JobInfo,
>)
    requires
        ids@.len() == modules@.len(),
    ensures
        planned_jobs_ok(
            r@,
            ids@,
            Seq::new(modules@.len(), |k: int| modules@[k]@),
            match file_path {
                Some(p) => Some(p@),
                None => None,
            },
        ),
{
    let mut infos: Vec<JobInfo> = Vec::new();
    let mut k: usize = 0;
    while k < modules.len()
        invariant
            k <= modules@.len(),
            ids@.len() == modules@.len(),
            infos@.len() == k,
            forall|x: int|
                0 <= x < k ==> ((#[trigger] infos@[x]).id == ids@[x] && infos@[x].module_name@
                    == modules@[x]@ && (match file_path {
                    Some(p) => infos@[x].file_path matches Some(q) && q@ == p@,
                    None => infos@[x].file_path is None,
                })),
        decreases modules@.len() - k,
    {
        infos.push(
            JobInfo {
                id: ids[k],
                module_name: modules[k].clone(),
                file_path: match file_path {
                    Some(p) => Some(p.clone()),
                    None => None,
                },
            },
        );
        k = k + 1;
    }
    infos
}

/// Every planned job of a batch with distinct ids is announced under its
/// own id, and no two announcements of the batch share an id: each id
/// appears in exactly one announcement — at position `k`, the `k`-th id.
pub proof fn lemma_announce_ids_unique(
    infos: Seq<JobInfo>,
    ids: Seq<u128>,
    modules: Seq<Seq<char>>,
    file_path: Option<Seq<char>>,
)
    requires
        planned_jobs_ok(infos, ids, modules, file_path),
        ids.len() == modules.len(),
        ids_distinct(ids),
    ensures
        forall|i: int, j: int|
            0 <= i < j < infos.len() ==> #[trigger] infos[i].id != #[trigger] infos[j].id,
        forall|k: int| 0 <= k < infos.len() ==> (#[trigger] infos[k]).id == ids[k],
{
}

/// The results of a file whose jobs could not be created (the file was
/// unreadable or larger than the whole mapped-byte budget): one failed
/// result per planned job, under the planned ids, so that the tracker
/// sees exactly one result per announcement.
pub fn failed_file_results(infos: &Vec<JobInfo>, error: &String) -> (r: Vec<JobResult>)
    ensures
        r@.len() == infos@.len(),
        forall|k: int|
            0 <= k < infos@.len() ==> ((#[trigger] r@[k]).id == infos@[k].id && r@[k].message
                is None && (r@[k].error matches Some(e) && e@ == error@)),
{
    let mut out: Vec<JobResult> = Vec::new();
    let mut k: usize = 0;
    while k < infos.len()
        invariant
            k <= infos@.len(),
            out@.len() == k,
            forall|x: int|
                0 <= x < k ==> ((#[trigger] out@[x]).id == infos@[x].id && out@[x].message is None
                    && (out@[x].error matches Some(e) && e@ == error@)),
        decreases infos@.len() - k,
    {
        out.push(JobResult { id: infos[k].id, message: None, error: Some(error.clone()) });
        k = k + 1;
    }
    out
}

} // verus!
