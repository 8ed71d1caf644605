//! The order in which a run removes what it reclaims.
use vstd::prelude::*;
use crate::model::{HistoryEntry, TruncateCounts};

verus! {

/// What a run removes, phase by phase: the blocks first, then the segments,
/// then the superseded snapshots, oldest first.
pub struct RemovalPlan {
    pub blocks: Vec<String>,
    pub segments: Vec<String>,
    pub snapshots: Vec<String>,
}

impl RemovalPlan {
    /// Every removal of the plan, in the order the run makes them.
    pub open spec fn order(&self) -> Seq<String> {
        self.blocks@ + self.segments@ + self.snapshots@
    }

    /// The row reported once every removal of the plan has succeeded.
    pub fn counts(&self) -> (r: TruncateCounts)
        ensures
            r.snapshot_removed == self.snapshots.len(),
            r.segment_removed == self.segments.len(),
            r.block_removed == self.blocks.len(),
    {
        TruncateCounts {
            snapshot_removed: self.snapshots.len() as u64,
            segment_removed: self.segments.len() as u64,
            block_removed: self.blocks.len() as u64,
        }
    }
}

/// `snapshots` lists the locations of the superseded entries of `chain`
/// (all but the head), from the oldest to the most recent.
pub open spec fn snapshots_oldest_first(chain: Seq<HistoryEntry>, snapshots: Seq<String>) -> bool {
    &&& snapshots.len() == chain.len() - 1
    &&& forall|j: int|
        0 <= j < snapshots.len() ==> (#[trigger] snapshots[j])@ == chain[chain.len() - 1 - j].location@
}

/// Lays out the removals of a run over `chain`, whose head is the current
/// snapshot.
pub fn plan_removals(chain: &Vec<HistoryEntry>, segment_delta: Vec<String>, block_delta: Vec<String>) -> (r: RemovalPlan)
    requires
        chain.len() >= 1,
    ensures
        r.blocks@ == block_delta@,
        r.segments@ == segment_delta@,
        snapshots_oldest_first(chain@, r.snapshots@),
{
    let mut snapshots: Vec<String> = Vec::new();
    let mut i: usize = chain.len();
    while i > 1
        invariant
            1 <= i <= chain.len(),
            snapshots.len() == chain.len() - i,
            forall|j: int|
                0 <= j < snapshots.len() ==> (#[trigger] snapshots@[j])@ == chain@[chain.len() - 1
                    - j].location@,
        decreases i,
    {
        i -= 1;
        snapshots.push(chain[i].location.clone());
    }
    RemovalPlan { blocks: block_delta, segments: segment_delta, snapshots }
}

/// The removals of a plan go by phase, and the snapshot phase goes from the
/// oldest superseded snapshot to the most recent one: every block removal
/// comes before every segment removal, which comes before every snapshot
/// removal, and the last removal of all is the snapshot just before the
/// current one.
pub proof fn lemma_removal_order(chain: Seq<HistoryEntry>, plan: RemovalPlan)
    requires
        chain.len() >= 2,
        snapshots_oldest_first(chain, plan.snapshots@),
    ensures
        forall|i: int| 0 <= i < plan.blocks.len() ==> #[trigger] plan.order()[i] == plan.blocks@[i],
        forall|i: int|
            plan.blocks.len() <= i < plan.blocks.len() + plan.segments.len() ==> #[trigger] plan.order()[i]
                == plan.segments@[i - plan.blocks.len()],
        forall|j: int|
            0 <= j < chain.len() - 1 ==> (#[trigger] plan.order()[plan.blocks.len() + plan.segments.len() + j])@
                == chain[chain.len() - 1 - j].location@,
        plan.order().len() == plan.blocks.len() + plan.segments.len() + chain.len() - 1,
        plan.order().last()@ == chain[1].location@,
{
    let nb = plan.blocks.len() as int;
    let ns = plan.segments.len() as int;
    assert forall|j: int| 0 <= j < chain.len() - 1 implies (#[trigger] plan.order()[nb + ns + j])@
        == chain[chain.len() - 1 - j].location@ by {
        assert(plan.order()[nb + ns + j] == plan.snapshots@[j]);
    }
    assert(plan.order()[nb + ns + chain.len() - 2] == plan.snapshots@[chain.len() - 2]);
}

} // verus!
