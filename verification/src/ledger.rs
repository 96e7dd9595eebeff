//! The mapped-byte admission ledger.
//!
//! A single counter bounds the bytes held in file mappings across all
//! in-flight jobs. The ingestion driver is its only writer: it admits a
//! file's bytes before mapping it and blocks when the budget is
//! saturated, until running jobs drop their mappings and their tokens
//! come back over the release channel. Every admission hands out exactly
//! one [`MappedToken`] for exactly the admitted byte count, and a token
//! is consumed — once, ownership makes a second release impossible — to
//! give the bytes back.

use vstd::prelude::*;
use crate::types::HostError;

verus! {

/// The receipt of one admission: the number of bytes one mapped file
/// holds of the budget. Dropping the mapping sends the token back; the
/// ledger takes the token to release exactly what was admitted.
pub struct MappedToken {
    amount: u64,
}

impl MappedToken {
    /// How many bytes this token holds of the budget.
    pub closed spec fn amount(&self) -> u64 {
        self.amount
    }

    /// How many bytes this token holds of the budget.
    pub fn bytes(&self) -> (r: u64)
        ensures
            r == self.amount(),
    {
        self.amount
    }
}

/// What the driver decides for one file under the budget.
pub enum AdmitDecision {
    /// The file fits: its bytes are charged and a token handed out.
    Admitted(MappedToken),
    /// The file would fit the budget but not what is free now: wait for a
    /// release, then try again.
    MustWait,
    /// The file alone is larger than the whole budget: it can never be
    /// admitted and its jobs are reported as failed.
    TooLarge,
}

/// The global mapped-byte ledger: bytes currently charged, and the
/// configured budget.
pub struct AdmissionLedger {
    mapped: u64,
    limit: u64,
}

impl AdmissionLedger {
    /// Bytes currently charged against the budget.
    pub closed spec fn mapped(&self) -> u64 {
        self.mapped
    }

    /// The configured budget.
    pub closed spec fn limit(&self) -> u64 {
        self.limit
    }

    /// The charged bytes never exceed the budget.
    pub closed spec fn wf(&self) -> bool {
        self.mapped <= self.limit
    }

    /// A fresh ledger with nothing charged.
    pub fn new(limit: u64) -> (r: AdmissionLedger)
        ensures
            r.wf(),
            r.mapped() == 0,
            r.limit() == limit,
    {
        AdmissionLedger { mapped: 0, limit }
    }

    /// Bytes currently charged against the budget.
    pub fn mapped_bytes(&self) -> (r: u64)
        ensures
            r == self.mapped(),
    {
        self.mapped
    }

    /// Decides the admission of a file of `n` bytes: charged and given a
    /// token when it fits what is free, made to wait when only the budget
    /// as a whole could hold it, rejected when it never can.
    pub fn try_admit(&mut self, n: u64) -> (r: AdmitDecision)
        requires
            old(self).wf(),
        ensures
            final(self).wf(),
            final(self).limit() == old(self).limit(),
            n > old(self).limit() ==> r is TooLarge,
            (n <= old(self).limit() && old(self).mapped() + n > old(self).limit()) ==> r
                is MustWait,
            old(self).mapped() + n <= old(self).limit() ==> (r matches AdmitDecision::Admitted(t)
                && t.amount() == n && final(self).mapped() == old(self).mapped() + n),
            !(r is Admitted) ==> *final(self) == *old(self),
    {
        if n > self.limit {
            AdmitDecision::TooLarge
        } else if n > self.limit - self.mapped {
            AdmitDecision::MustWait
        } else {
            self.mapped = self.mapped + n;
            AdmitDecision::Admitted(MappedToken { amount: n })
        }
    }

    /// Takes a release token back and gives its bytes back to the budget:
    /// exactly what the matching admission charged, exactly once — the
    /// token is consumed.
    pub fn release(&mut self, token: MappedToken)
        requires
            old(self).wf(),
            token.amount() <= old(self).mapped(),
        ensures
            final(self).wf(),
            final(self).mapped() == old(self).mapped() - token.amount(),
            final(self).limit() == old(self).limit(),
    {
        self.mapped = self.mapped - token.amount;
    }

    /// The budget is respected at every observation point: whatever
    /// sequence of admissions and releases led here, the charged bytes
    /// are at most the configured budget.
    pub proof fn lemma_budget_respected(&self)
        requires
            self.wf(),
        ensures
            self.mapped() <= self.limit(),
    {
    }
}

/// One movement of the ledger, as seen on the driver's thread: an
/// admission charging `n` bytes, or a release giving `n` bytes back.
pub enum LedgerOp {
    Admit(u64),
    Release(u64),
}

/// The net charge after a sequence of ledger movements.
pub open spec fn net_mapped(ops: Seq<LedgerOp>) -> int
    decreases ops.len(),
{
    if ops.len() == 0 {
        0
    } else {
        net_mapped(ops.drop_last()) + (match ops.last() {
            LedgerOp::Admit(n) => n as int,
            LedgerOp::Release(n) => -(n as int),
        })
    }
}

/// The total bytes admitted over a sequence of movements.
pub open spec fn total_admitted(ops: Seq<LedgerOp>) -> int
    decreases ops.len(),
{
    if ops.len() == 0 {
        0
    } else {
        total_admitted(ops.drop_last()) + (match ops.last() {
            LedgerOp::Admit(n) => n as int,
            LedgerOp::Release(_) => 0int,
        })
    }
}

/// The total bytes released over a sequence of movements.
pub open spec fn total_released(ops: Seq<LedgerOp>) -> int
    decreases ops.len(),
{
    if ops.len() == 0 {
        0
    } else {
        total_released(ops.drop_last()) + (match ops.last() {
            LedgerOp::Admit(_) => 0int,
            LedgerOp::Release(n) => n as int,
        })
    }
}

/// Conservation of the budget: after any sequence of admissions and
/// releases the charge is exactly the admitted total minus the released
/// total. With every release carrying a token of exactly its admission's
/// bytes, a charge of zero means every admission was matched by exactly
/// its own release.
pub proof fn lemma_ledger_conservation(ops: Seq<LedgerOp>)
    ensures
        net_mapped(ops) == total_admitted(ops) - total_released(ops),
    decreases ops.len(),
{
    if ops.len() > 0 {
        lemma_ledger_conservation(ops.drop_last());
    }
}

} // verus!
