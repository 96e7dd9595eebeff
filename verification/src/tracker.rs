//! The termination detector: the single source of truth for completion.
//!
//! One tracker consumes the tracking stream. Every announced job id is
//! inserted into the outstanding set; every result removes its id. When
//! the set is empty after a result, and at least one announcement has been
//! seen, the recursive job graph is quiescent and the tracker orders the
//! worker pool shut down — once, and only then. The "at least one
//! announcement" guard keeps the pool alive before ingestion has begun.

use vstd::prelude::*;
use crate::job::{JobTracking, ids_distinct};

verus! {

/// The outstanding set after one tracking event.
pub open spec fn step_outstanding(outstanding: Set<u128>, ev: &JobTracking) -> Set<u128> {
    match ev {
        JobTracking::JobInfo(info) => outstanding.insert(info.id),
        JobTracking::JobResult(result) => outstanding.remove(result.id),
    }
}

/// Whether an announcement has been seen once this event is processed.
pub open spec fn step_seen(seen: bool, ev: &JobTracking) -> bool {
    seen || ev is JobInfo
}

/// The quiescence rule: shutdown is ordered exactly when a result leaves
/// the outstanding set empty after at least one announcement was seen.
pub open spec fn step_shutdown(outstanding: Set<u128>, seen: bool, ev: &JobTracking) -> bool {
    &&& ev is JobResult
    &&& step_seen(seen, ev)
    &&& step_outstanding(outstanding, ev).is_empty()
}

/// The tracker's state: the set of announced-but-unfinished job ids, and
/// whether any announcement was ever seen.
pub struct Tracker {
    ids: Vec<u128>,
    seen: bool,
}

impl Tracker {
    /// The set of outstanding job ids.
    pub closed spec fn outstanding(&self) -> Set<u128> {
        self.ids@.to_set()
    }

    /// Whether at least one announcement has been processed.
    pub closed spec fn seen_announce(&self) -> bool {
        self.seen
    }

    /// No id is stored twice.
    pub closed spec fn wf(&self) -> bool {
        forall|i: int, j: int|
            0 <= i < j < self.ids@.len() ==> #[trigger] self.ids@[i] != #[trigger] self.ids@[j]
    }

    /// A fresh tracker: nothing outstanding, nothing seen.
    pub fn new() -> (r: Tracker)
        ensures
            r.wf(),
            r.outstanding().is_empty(),
            !r.seen_announce(),
    {
        let r = Tracker { ids: Vec::new(), seen: false };
        proof {
            assert(r.outstanding() =~= Set::empty());
        }
        r
    }

    /// How many jobs are outstanding.
    pub fn outstanding_count(&self) -> (r: usize)
        requires
            self.wf(),
        ensures
            r == self.outstanding().len(),
    {
        proof {
            self.ids@.unique_seq_to_set();
        }
        self.ids.len()
    }

    /// Processes one tracking event: inserts the id of an announcement,
    /// removes the id of a result. Returns true exactly when the
    /// quiescence rule fires: the set is empty after a result and at least
    /// one announcement has been seen — the caller then broadcasts one
    /// `Die` per worker and exits.
    pub fn on_event(&mut self, ev: &JobTracking) -> (shutdown: bool)
        requires
            old(self).wf(),
        ensures
            final(self).wf(),
            final(self).outstanding() == step_outstanding(old(self).outstanding(), ev),
            final(self).seen_announce() == step_seen(old(self).seen_announce(), ev),
            shutdown == step_shutdown(old(self).outstanding(), old(self).seen_announce(), ev),
    {
        let id = ev.id();
        let is_announce = match ev {
            JobTracking::JobInfo(_) => true,
            JobTracking::JobResult(_) => false,
        };
        let mut at: usize = 0;
        let mut found = false;
        while at < self.ids.len() && !found
            invariant
                at <= self.ids@.len(),
                *self == *old(self),
                !found ==> forall|k: int| 0 <= k < at ==> self.ids@[k] != id,
                found ==> at < self.ids@.len() && self.ids@[at as int] == id,
            decreases self.ids@.len() - at + (if found {
                0int
            } else {
                1int
            }),
        {
            if self.ids[at] == id {
                found = true;
            } else {
                at = at + 1;
            }
        }
        proof {
            if !found {
                assert(!old(self).ids@.contains(id)) by {
                    assert(forall|k: int|
                        0 <= k < old(self).ids@.len() ==> old(self).ids@[k] != id);
                }
                assert(!old(self).outstanding().contains(id));
            } else {
                assert(old(self).outstanding().contains(id));
            }
        }
        if is_announce {
            self.seen = true;
            if !found {
                self.ids.push(id);
                proof {
                    assert forall|k: int|
                        0 <= k < self.ids@.len() - 1 implies self.ids@[k] == old(
                        self,
                    ).ids@[k] by {}
                    assert(self.outstanding() =~= old(self).outstanding().insert(id)) by {
                        assert forall|x: u128|
                            self.ids@.contains(x) implies old(self).ids@.contains(x) || x
                            == id by {
                            let w = choose|w: int| 0 <= w < self.ids@.len() && self.ids@[w] == x;
                            if w < self.ids@.len() - 1 {
                                assert(old(self).ids@[w] == x);
                            }
                        }
                        assert forall|x: u128|
                            old(self).ids@.contains(x) implies self.ids@.contains(x) by {
                            let w = choose|w: int|
                                0 <= w < old(self).ids@.len() && old(self).ids@[w] == x;
                            assert(self.ids@[w] == x);
                        }
                        assert(self.ids@.contains(id)) by {
                            assert(self.ids@[self.ids@.len() - 1] == id);
                        }
                    }
                }
            } else {
                proof {
                    assert(self.outstanding() =~= old(self).outstanding().insert(id));
                }
            }
            false
        } else {
            if found {
                let last = match self.ids.pop() {
                    Some(v) => v,
                    None => unreached(),
                };
                if at < self.ids.len() {
                    self.ids.set(at, last);
                }
                proof {
                    let pre = old(self).ids@;
                    let post = self.ids@;
                    assert(pre[at as int] == id);
                    assert forall|x: u128| post.contains(x) implies pre.contains(x) && x
                        != id by {
                        let w = choose|w: int| 0 <= w < post.len() && post[w] == x;
                        if w == at {
                            assert(pre[pre.len() - 1] == x);
                            assert(at < pre.len() - 1 ==> pre[at as int] != pre[pre.len() - 1]);
                        } else {
                            assert(pre[w] == x);
                            assert(pre[w] != pre[at as int]);
                        }
                    }
                    assert forall|x: u128| pre.contains(x) && x != id implies post.contains(
                        x,
                    ) by {
                        let w = choose|w: int| 0 <= w < pre.len() && pre[w] == x;
                        assert(w != at);
                        if w == pre.len() - 1 {
                            if at < pre.len() - 1 {
                                assert(post[at as int] == x);
                            }
                        } else {
                            assert(post[w] == x);
                        }
                    }
                    assert(self.outstanding() =~= old(self).outstanding().remove(id));
                    assert forall|i: int, j: int|
                        0 <= i < j < post.len() implies #[trigger] post[i] != #[trigger] post[j] by {
                        if i == at {
                            assert(post[i] == pre[pre.len() - 1]);
                            assert(post[j] == pre[j]);
                        } else if j == at {
                            assert(post[j] == pre[pre.len() - 1]);
                            assert(post[i] == pre[i]);
                        } else {
                            assert(post[i] == pre[i] && post[j] == pre[j]);
                        }
                    }
                }
            } else {
                proof {
                    assert(self.outstanding() =~= old(self).outstanding().remove(id));
                }
            }
            let empty_now = self.ids.len() == 0;
            proof {
                if empty_now {
                    assert(self.outstanding() =~= Set::empty());
                } else {
                    assert(self.outstanding().contains(self.ids@[0]));
                }
            }
            self.seen && empty_now
        }
    }
}

/// The tracker's half of pool shutdown: processing a tracking stream
/// signals shutdown at some event exactly when that event is a result
/// that leaves the outstanding set empty after an announcement has been
/// seen.
pub proof fn lemma_quiescence_needs_announce(outstanding: Set<u128>, seen: bool, ev: &JobTracking)
    ensures
        !seen && !(ev is JobInfo) ==> step_seen(seen, ev) == false,
        !step_seen(seen, ev) ==> !step_shutdown(outstanding, seen, ev),
        step_shutdown(outstanding, seen, ev) ==> (ev is JobResult
            && step_outstanding(outstanding, ev).is_empty()),
{
}

/// The outstanding set after a whole tracking stream, starting from a
/// fresh tracker.
pub open spec fn outstanding_after(events: Seq<JobTracking>) -> Set<u128>
    decreases events.len(),
{
    if events.len() == 0 {
        Set::empty()
    } else {
        step_outstanding(outstanding_after(events.drop_last()), &events.last())
    }
}

/// Whether any announcement occurs in the stream.
pub open spec fn seen_after(events: Seq<JobTracking>) -> bool
    decreases events.len(),
{
    if events.len() == 0 {
        false
    } else {
        step_seen(seen_after(events.drop_last()), &events.last())
    }
}

/// Whether the tracker signals shutdown when it processes the event at
/// position `k` of the stream.
pub open spec fn shutdown_at(events: Seq<JobTracking>, k: int) -> bool {
    step_shutdown(outstanding_after(events.take(k)), seen_after(events.take(k)), &events[k])
}

/// A stream without a single announcement never signals shutdown: with no
/// announcements the pool winds down by channel closure, not by the
/// quiescence rule.
pub proof fn lemma_no_announce_no_shutdown(events: Seq<JobTracking>, k: int)
    requires
        0 <= k < events.len(),
        forall|i: int| 0 <= i < events.len() ==> !((#[trigger] events[i]) is JobInfo),
    ensures
        !shutdown_at(events, k),
{
    lemma_seen_after_monotone(events.take(k));
}

proof fn lemma_seen_after_monotone(events: Seq<JobTracking>)
    requires
        forall|i: int| 0 <= i < events.len() ==> !((#[trigger] events[i]) is JobInfo),
    ensures
        !seen_after(events),
    decreases events.len(),
{
    if events.len() > 0 {
        lemma_seen_after_monotone(events.drop_last());
    }
}

/// The stream announces `ids`, in order, and then reports exactly those
/// ids, in order: one announcement and one result per id.
pub open spec fn announce_then_report(events: Seq<JobTracking>, ids: Seq<u128>) -> bool {
    &&& events.len() == 2 * ids.len()
    &&& forall|i: int|
        0 <= i < ids.len() ==> ((#[trigger] events[i]) is JobInfo && events[i].spec_id() == ids[i])
    &&& forall|i: int|
        ids.len() <= i < events.len() ==> ((#[trigger] events[i]) is JobResult
            && events[i].spec_id() == ids[i - ids.len()])
}

proof fn lemma_outstanding_after_announces(events: Seq<JobTracking>, ids: Seq<u128>, k: int)
    requires
        announce_then_report(events, ids),
        0 <= k <= ids.len(),
    ensures
        outstanding_after(events.take(k)) == ids.take(k).to_set(),
        seen_after(events.take(k)) == (k > 0),
    decreases k,
{
    if k == 0 {
        assert(outstanding_after(events.take(0)) =~= ids.take(0).to_set());
    } else {
        lemma_outstanding_after_announces(events, ids, k - 1);
        assert(events.take(k).drop_last() =~= events.take(k - 1));
        let shorter = ids.take(k - 1);
        let longer = ids.take(k);
        assert(shorter.to_set().insert(ids[k - 1]) =~= longer.to_set()) by {
            assert forall|x: u128|
                longer.to_set().contains(x) implies shorter.to_set().contains(x) || x == ids[k
                - 1] by {
                let w = choose|w: int| 0 <= w < longer.len() && longer[w] == x;
                if w < k - 1 {
                    assert(shorter[w] == x);
                }
            }
            assert forall|x: u128|
                shorter.to_set().contains(x) implies longer.to_set().contains(x) by {
                let w = choose|w: int| 0 <= w < shorter.len() && shorter[w] == x;
                assert(longer[w] == x);
            }
            assert(longer[k - 1] == ids[k - 1]);
            assert(longer.to_set().contains(ids[k - 1]));
        }
    }
}

proof fn lemma_outstanding_after_reports(events: Seq<JobTracking>, ids: Seq<u128>, k: int)
    requires
        announce_then_report(events, ids),
        ids_distinct(ids),
        ids.len() <= k <= events.len(),
    ensures
        outstanding_after(events.take(k)) == ids.skip(k - ids.len()).to_set(),
        seen_after(events.take(k)) == (ids.len() > 0),
    decreases k,
{
    let n = ids.len() as int;
    if k == n {
        lemma_outstanding_after_announces(events, ids, k);
        assert(ids.take(n) =~= ids);
        assert(ids.skip(0) =~= ids);
    } else {
        lemma_outstanding_after_reports(events, ids, k - 1);
        assert(events.take(k).drop_last() =~= events.take(k - 1));
        let j = k - 1 - n;
        let head = ids.skip(j);
        let tail = ids.skip(j + 1);
        assert(head.to_set().remove(ids[j]) =~= tail.to_set()) by {
            assert forall|x: u128| tail.to_set().contains(x) implies head.to_set().contains(x) && x
                != ids[j] by {
                let w = choose|w: int| 0 <= w < tail.len() && tail[w] == x;
                assert(head[w + 1] == x);
                assert(ids[j + 1 + w] == x);
            }
            assert forall|x: u128|
                head.to_set().contains(x) && x != ids[j] implies tail.to_set().contains(x) by {
                let w = choose|w: int| 0 <= w < head.len() && head[w] == x;
                assert(ids[j + w] == x);
                assert(w != 0);
                assert(tail[w - 1] == x);
            }
        }
    }
}

/// Quiescence of one ingestion wave: a stream that announces a batch of
/// distinct job ids and then reports exactly those ids — one result per
/// announcement — signals shutdown on the last report and never before.
/// An empty batch never signals shutdown at all.
pub proof fn lemma_balanced_run_quiesces(events: Seq<JobTracking>, ids: Seq<u128>)
    requires
        announce_then_report(events, ids),
        ids_distinct(ids),
    ensures
        ids.len() > 0 ==> shutdown_at(events, events.len() - 1),
        forall|k: int| 0 <= k < events.len() - 1 ==> !shutdown_at(events, k),
{
    let n = ids.len() as int;
    if n > 0 {
        lemma_outstanding_after_reports(events, ids, 2 * n - 1);
        let last = ids.skip(n - 1);
        assert(last.to_set().remove(ids[n - 1]) =~= Set::empty()) by {
            assert forall|x: u128| !(#[trigger] last.to_set().remove(ids[n - 1]).contains(x)) by {
                if last.to_set().contains(x) {
                    let w = choose|w: int| 0 <= w < last.len() && last[w] == x;
                    assert(ids[n - 1 + w] == x);
                    assert(w == 0);
                }
            }
        }
    }
    assert forall|k: int| 0 <= k < events.len() - 1 implies !shutdown_at(events, k) by {
        if k < n {
            assert(events[k] is JobInfo);
        } else {
            lemma_outstanding_after_reports(events, ids, k);
            let j = k - n;
            assert(events.take(k + 1).drop_last() =~= events.take(k));
            let head = ids.skip(j);
            assert(outstanding_after(events.take(k + 1)) == head.to_set().remove(ids[j]));
            assert(head.to_set().remove(ids[j]).contains(ids[j + 1])) by {
                assert(head[1] == ids[j + 1]);
                assert(head.to_set().contains(ids[j + 1]));
            }
        }
    }
}

} // verus!
