//! The progress tracker: a counter over a fixed number of validators that
//! yields one status message per completion. Delivering the messages to
//! subscribers is the caller's concern; this module guarantees what each
//! message says and how the completed count moves.

use vstd::prelude::*;

verus! {

/// What a progress message announces: an intermediate completion, or one of
/// the two terminal outcomes of a run.
#[derive(Clone, Copy, Debug, PartialEq, Eq, Structural)]
pub enum MessageKind {
    Progress,
    Complete,
    Error,
}

/// One status broadcast: which validator finished, how many of the total are
/// done, and a human-readable status line.
#[derive(Debug, Clone)]
pub struct ProgressMessage {
    pub kind: MessageKind,
    pub validator: String,
    pub completed: usize,
    pub total: usize,
    pub status: String,
}

/// Counts validator completions for one orchestration run. Constructed with
/// the fixed number of validators; every completion raises the count by
/// exactly one and yields the message to broadcast.
pub struct ProgressTracker {
    pub total_validators: usize,
    pub completed_validators: usize,
}

impl ProgressTracker {
    /// A tracker for a run of `total_validators` validators, none completed.
    pub fn new(total_validators: usize) -> (r: Self)
        ensures
            r.total_validators == total_validators,
            r.completed_validators == 0,
    {
        ProgressTracker { total_validators, completed_validators: 0 }
    }

    /// Records one validator completion: the count rises by exactly one, and
    /// the returned message carries the new count, so the counts a
    /// subscriber observes are never under- or over-counted.
    pub fn update(&mut self, validator_name: String, status: String) -> (msg: ProgressMessage)
        requires
            old(self).completed_validators < usize::MAX,
        ensures
            final(self).completed_validators == old(self).completed_validators + 1,
            final(self).total_validators == old(self).total_validators,
            msg.kind == MessageKind::Progress,
            msg.validator == validator_name,
            msg.completed == final(self).completed_validators,
            msg.total == old(self).total_validators,
            msg.status == status,
    {
        self.completed_validators = self.completed_validators + 1;
        ProgressMessage {
            kind: MessageKind::Progress,
            validator: validator_name,
            completed: self.completed_validators,
            total: self.total_validators,
            status,
        }
    }

    /// The single terminal message of a successful run: every validator
    /// counted, the finished report as its payload.
    pub fn mark_complete(&self, report_json: String) -> (msg: ProgressMessage)
        ensures
            msg.kind == MessageKind::Complete,
            msg.validator@ == Seq::<char>::empty(),
            msg.completed == self.total_validators,
            msg.total == self.total_validators,
            msg.status == report_json,
    {
        ProgressMessage {
            kind: MessageKind::Complete,
            validator: String::new(),
            completed: self.total_validators,
            total: self.total_validators,
            status: report_json,
        }
    }
}

proof fn lemma_counts_identity(counts: Seq<int>, k: int)
    requires
        0 <= k < counts.len(),
        counts[0] == 0,
        forall|i: int| 0 < i < counts.len() ==> #[trigger] counts[i] == counts[i - 1] + 1,
    ensures
        counts[k] == k,
    decreases k,
{
    if k > 0 {
        lemma_counts_identity(counts, k - 1);
    }
}

/// Law: over one run, the completed counts a subscriber observes are
/// non-decreasing and reach exactly the number of updates. The hypotheses
/// are what `update` guarantees: the count starts at zero and each
/// completion raises it by exactly one. The terminal message is not among
/// them: `update` only ever yields an intermediate message, and exactly one
/// terminal message comes from the single `mark_complete` of the run.
pub proof fn lemma_progress_monotonic(counts: Seq<int>)
    requires
        counts.len() > 0,
        counts[0] == 0,
        forall|i: int| 0 < i < counts.len() ==> #[trigger] counts[i] == counts[i - 1] + 1,
    ensures
        forall|i: int, j: int| 0 <= i <= j < counts.len() ==> counts[i] <= counts[j],
        counts.last() == counts.len() - 1,
{
    assert forall|i: int, j: int| 0 <= i <= j < counts.len() implies counts[i] <= counts[j] by {
        lemma_counts_identity(counts, i);
        lemma_counts_identity(counts, j);
    }
    lemma_counts_identity(counts, counts.len() - 1);
}

} // verus!
