//! One truncation run as a state machine. The caller performs each request
//! against the object store and hands the outcome back; the machine decides
//! what comes next. Deltas are computed in full before anything is removed.
use vstd::prelude::*;
use crate::model::{HistoryEntry, Segment, Snapshot, GcError, TruncateCounts, lists_exactly, entry_locations, locs};
use crate::delta::{segment_delta, block_delta, segment_delta_set, block_delta_set, historical_segments};
use crate::plan::{RemovalPlan, plan_removals, snapshots_oldest_first};

verus! {

/// What the machine asks of the object store next.
pub enum Request {
    /// Read and decode the snapshot at this location.
    ReadSnapshot(String),
    /// Read and decode the segment at this location.
    ReadSegment(String),
    /// Remove the object at this location.
    Remove(String),
    /// Nothing: the run has finished or failed.
    Done,
}

/// The state of a run.
pub enum TruncateRun {
    /// Following back-references: `chain` has been read, newest first, and
    /// the snapshot at `next` comes after it.
    Walking { chain: Vec<HistoryEntry>, next: String },
    /// Reading segments over the complete walk `history`, current snapshot
    /// first: the segments of the delta into `deleted`, then those of the
    /// current snapshot into `live`.
    Resolving {
        history: Vec<HistoryEntry>,
        segment_delta: Vec<String>,
        deleted: Vec<Segment>,
        live: Vec<Segment>,
    },
    /// Removing what the plan lists; the counters say how much of each phase
    /// is done.
    Removing {
        plan: RemovalPlan,
        blocks_removed: usize,
        segments_removed: usize,
        snapshots_removed: usize,
    },
    /// Done: `None` when there was nothing to reclaim, else the row.
    Finished { rows: Option<TruncateCounts> },
    /// Stopped at the first error.
    Failed { error: GcError },
}

/// The snapshot's back-reference is the location `l`.
pub open spec fn points_to(s: Snapshot, l: Seq<char>) -> bool {
    s.prev_snapshot_location matches Some(p) && p@ == l
}

/// Each entry's snapshot points back to the next entry, and no location
/// comes twice.
pub open spec fn linked(chain: Seq<HistoryEntry>) -> bool {
    &&& entry_locations(chain).no_duplicates()
    &&& forall|i: int|
        0 <= i < chain.len() - 1 ==> points_to((#[trigger] chain[i]).snapshot, chain[i + 1].location@)
}

/// A walk that still has the snapshot at `next` to read.
pub open spec fn walk_in_progress(chain: Seq<HistoryEntry>, next: String) -> bool {
    &&& linked(chain)
    &&& chain.len() > 0 ==> points_to(chain.last().snapshot, next@)
    &&& !entry_locations(chain).contains(next@)
}

/// A walk that reached the oldest snapshot.
pub open spec fn walk_complete(chain: Seq<HistoryEntry>) -> bool {
    &&& linked(chain)
    &&& chain.len() > 0
    &&& chain.last().snapshot.prev_snapshot_location is None
}

/// Reading segments is over once every segment of the delta and every
/// segment of the current snapshot has been read.
pub open spec fn all_read(
    history: Seq<HistoryEntry>,
    delta: Seq<String>,
    deleted: Seq<Segment>,
    live: Seq<Segment>,
) -> bool {
    deleted.len() == delta.len() && live.len() == history[0].snapshot.segments.len()
}

/// `r` is the start of the removal phase for what was read.
pub open spec fn planned(
    history: Seq<HistoryEntry>,
    delta: Seq<String>,
    deleted: Seq<Segment>,
    live: Seq<Segment>,
    r: TruncateRun,
) -> bool {
    r matches TruncateRun::Removing { plan, blocks_removed, segments_removed, snapshots_removed }
        && blocks_removed == 0 && segments_removed == 0 && snapshots_removed == 0
        && lists_exactly(plan.blocks@, block_delta_set(deleted, live)) && plan.segments@ == delta
        && snapshots_oldest_first(history, plan.snapshots@)
}

/// `r` goes on reading segments with what was read so far, or, when all is
/// read, starts removing.
pub open spec fn resolved_or_planned(
    history: Seq<HistoryEntry>,
    delta: Seq<String>,
    deleted: Seq<Segment>,
    live: Seq<Segment>,
    r: TruncateRun,
) -> bool {
    if all_read(history, delta, deleted, live) {
        planned(history, delta, deleted, live, r)
    } else {
        r matches TruncateRun::Resolving { history: h, segment_delta: d, deleted: x, live: y } && h@
            == history && d@ == delta && x@ == deleted && y@ == live
    }
}

/// `r` is what follows a complete walk: no rows when the chain holds at most
/// the current snapshot, else the reading of segments for the delta.
pub open spec fn after_walk(chain: Seq<HistoryEntry>, r: TruncateRun) -> bool {
    if chain.len() <= 1 {
        r == (TruncateRun::Finished { rows: None })
    } else {
        exists|delta: Seq<String>|
            lists_exactly(delta, segment_delta_set(chain)) && #[trigger] resolved_or_planned(
                chain,
                delta,
                seq![],
                seq![],
                r,
            )
    }
}

/// `r` is what follows reading `snap` at `next` after `chain`: the walk goes
/// on to the predecessor, ends, or fails when the back-reference points into
/// the chain itself.
pub open spec fn after_snapshot(chain: Seq<HistoryEntry>, next: String, snap: Snapshot, r: TruncateRun) -> bool {
    let walked = chain.push(HistoryEntry { location: next, snapshot: snap });
    match snap.prev_snapshot_location {
        None => after_walk(walked, r),
        Some(p) => if entry_locations(walked).contains(p@) {
            r == (TruncateRun::Failed { error: GcError::MetadataCorrupt(p) })
        } else {
            r matches TruncateRun::Walking { chain: c, next: n } && c@ == walked && n == p
        },
    }
}

/// Whether one of the entries was read from `l`.
fn location_in_chain(chain: &Vec<HistoryEntry>, l: &String) -> (r: bool)
    ensures
        r == entry_locations(chain@).contains(l@),
{
    let mut i: usize = 0;
    while i < chain.len()
        invariant
            0 <= i <= chain.len(),
            forall|j: int| 0 <= j < i ==> chain@[j].location@ != l@,
        decreases chain.len() - i,
    {
        if chain[i].location == *l {
            assert(entry_locations(chain@)[i as int] == l@);
            return true;
        }
        i += 1;
    }
    proof {
        if entry_locations(chain@).contains(l@) {
            let k = choose|k: int|
                0 <= k < entry_locations(chain@).len() && entry_locations(chain@)[k] == l@;
            assert(chain@[k].location@ == l@);
        }
    }
    false
}

/// Goes on reading segments, or plans the removals once all are read.
fn resolve_or_plan(
    history: Vec<HistoryEntry>,
    segment_delta: Vec<String>,
    deleted: Vec<Segment>,
    live: Vec<Segment>,
) -> (r: TruncateRun)
    requires
        walk_complete(history@),
        history.len() >= 2,
        lists_exactly(segment_delta@, segment_delta_set(history@)),
        deleted.len() <= segment_delta.len(),
        live.len() <= history@[0].snapshot.segments.len(),
        live.len() > 0 ==> deleted.len() == segment_delta.len(),
    ensures
        r.wf(),
        resolved_or_planned(history@, segment_delta@, deleted@, live@, r),
{
    if deleted.len() == segment_delta.len() && live.len() == history[0].snapshot.segments.len() {
        let blocks = block_delta(&deleted, &live);
        let plan = plan_removals(&history, segment_delta, blocks);
        TruncateRun::Removing {
            plan,
            blocks_removed: 0,
            segments_removed: 0,
            snapshots_removed: 0,
        }
    } else {
        TruncateRun::Resolving { history, segment_delta, deleted, live }
    }
}

/// What follows a complete walk.
fn finish_walk(chain: Vec<HistoryEntry>) -> (r: TruncateRun)
    requires
        walk_complete(chain@),
    ensures
        r.wf(),
        after_walk(chain@, r),
{
    if chain.len() <= 1 {
        TruncateRun::Finished { rows: None }
    } else {
        let delta = segment_delta(&chain);
        let ghost d = delta@;
        let ghost c = chain@;
        let r = resolve_or_plan(chain, delta, Vec::new(), Vec::new());
        proof {
            assert(resolved_or_planned(c, d, seq![], seq![], r));
        }
        r
    }
}

impl TruncateRun {
    /// The invariant of each state.
    pub open spec fn wf(&self) -> bool {
        match self {
            TruncateRun::Walking { chain, next } => walk_in_progress(chain@, *next),
            TruncateRun::Resolving { history, segment_delta, deleted, live } => {
                &&& walk_complete(history@)
                &&& history.len() >= 2
                &&& lists_exactly(segment_delta@, segment_delta_set(history@))
                &&& deleted.len() <= segment_delta.len()
                &&& live.len() <= history@[0].snapshot.segments.len()
                &&& live.len() > 0 ==> deleted.len() == segment_delta.len()
                &&& !all_read(history@, segment_delta@, deleted@, live@)
            },
            TruncateRun::Removing { plan, blocks_removed, segments_removed, snapshots_removed } => {
                &&& *blocks_removed <= plan.blocks.len()
                &&& *segments_removed <= plan.segments.len()
                &&& *snapshots_removed <= plan.snapshots.len()
                &&& *blocks_removed < plan.blocks.len() ==> *segments_removed == 0
                    && *snapshots_removed == 0
                &&& *segments_removed < plan.segments.len() ==> *snapshots_removed == 0
                &&& *snapshots_removed < plan.snapshots.len()
            },
            _ => true,
        }
    }

    /// How many removals of the plan have succeeded.
    pub open spec fn removed_count(&self) -> int
        recommends
            self is Removing,
    {
        self->blocks_removed + self->segments_removed + self->snapshots_removed
    }

    /// A run over the table whose current snapshot is at `snapshot_location`;
    /// a table that was never written has nothing to reclaim.
    pub fn start(snapshot_location: Option<String>) -> (r: TruncateRun)
        ensures
            r.wf(),
            match snapshot_location {
                None => r == (TruncateRun::Finished { rows: None }),
                Some(l) => r matches TruncateRun::Walking { chain, next } && chain@.len() == 0
                    && next == l,
            },
    {
        match snapshot_location {
            None => TruncateRun::Finished { rows: None },
            Some(l) => TruncateRun::Walking { chain: Vec::new(), next: l },
        }
    }

    /// What the store should do next.
    pub fn request(&self) -> (r: Request)
        requires
            self.wf(),
        ensures
            self is Walking ==> r == Request::ReadSnapshot(self->next),
            self matches TruncateRun::Resolving { history, segment_delta, deleted, live } ==> r
                == Request::ReadSegment(
                if deleted.len() < segment_delta.len() {
                    segment_delta@[deleted.len() as int]
                } else {
                    history@[0].snapshot.segments@[live.len() as int]
                },
            ),
            self is Removing ==> r == Request::Remove(self->plan.order()[self.removed_count()]),
            self is Finished || self is Failed ==> r == Request::Done,
    {
        match self {
            TruncateRun::Walking { next, .. } => {
                let l: String = next.clone();
                Request::ReadSnapshot(l)
            },
            TruncateRun::Resolving { history, segment_delta, deleted, live } => {
                if deleted.len() < segment_delta.len() {
                    Request::ReadSegment(segment_delta[deleted.len()].clone())
                } else {
                    Request::ReadSegment(history[0].snapshot.segments[live.len()].clone())
                }
            },
            TruncateRun::Removing { plan, blocks_removed, segments_removed, snapshots_removed } => {
                let b = *blocks_removed;
                let s = *segments_removed;
                let n = *snapshots_removed;
                let ghost nb = plan.blocks.len() as int;
                let ghost ns = plan.segments.len() as int;
                if b < plan.blocks.len() {
                    assert(plan.order()[b as int] == plan.blocks@[b as int]);
                    Request::Remove(plan.blocks[b].clone())
                } else if s < plan.segments.len() {
                    assert(plan.order()[nb + s] == plan.segments@[s as int]);
                    Request::Remove(plan.segments[s].clone())
                } else {
                    assert(plan.order()[nb + ns + n] == plan.snapshots@[n as int]);
                    Request::Remove(plan.snapshots[n].clone())
                }
            },
            _ => Request::Done,
        }
    }

    /// Takes the outcome of reading the snapshot that `request` asked for.
    pub fn on_snapshot(self, result: Result<Snapshot, GcError>) -> (r: TruncateRun)
        requires
            self is Walking,
            self.wf(),
        ensures
            r.wf(),
            match result {
                Err(e) => r == (TruncateRun::Failed { error: e }),
                Ok(snap) => after_snapshot(self->chain@, self->next, snap, r),
            },
    {
        match self {
            TruncateRun::Walking { chain, next } => {
                let mut chain = chain;
                match result {
                    Err(e) => TruncateRun::Failed { error: e },
                    Ok(snapshot) => {
                        let prev: Option<String> = match &snapshot.prev_snapshot_location {
                            Some(p) => Some(p.clone()),
                            None => None,
                        };
                        let ghost before = chain@;
                        let ghost entry = HistoryEntry { location: next, snapshot };
                        chain.push(HistoryEntry { location: next, snapshot });
                        proof {
                            assert(entry_locations(chain@) =~= entry_locations(before).push(
                                entry.location@,
                            ));
                            assert(chain@ == before.push(entry));
                            assert forall|i: int| 0 <= i < chain@.len() - 1 implies points_to(
                                (#[trigger] chain@[i]).snapshot,
                                chain@[i + 1].location@,
                            ) by {
                                if i < before.len() - 1 {
                                    assert(points_to(before[i].snapshot, before[i + 1].location@));
                                }
                            }
                        }
                        match prev {
                            None => finish_walk(chain),
                            Some(p) => {
                                if location_in_chain(&chain, &p) {
                                    TruncateRun::Failed { error: GcError::MetadataCorrupt(p) }
                                } else {
                                    TruncateRun::Walking { chain, next: p }
                                }
                            },
                        }
                    },
                }
            },
            other => other,
        }
    }

    /// Takes the outcome of reading the segment that `request` asked for:
    /// the segments of the delta come first, then those of the current
    /// snapshot.
    pub fn on_segment(self, result: Result<Segment, GcError>) -> (r: TruncateRun)
        requires
            self is Resolving,
            self.wf(),
        ensures
            r.wf(),
            match result {
                Err(e) => r == (TruncateRun::Failed { error: e }),
                Ok(seg) => if self->deleted.len() < self->segment_delta.len() {
                    resolved_or_planned(
                        self->history@,
                        self->segment_delta@,
                        self->deleted@.push(seg),
                        self->live@,
                        r,
                    )
                } else {
                    resolved_or_planned(
                        self->history@,
                        self->segment_delta@,
                        self->deleted@,
                        self->live@.push(seg),
                        r,
                    )
                },
            },
    {
        match self {
            TruncateRun::Resolving { history, segment_delta, deleted, live } => {
                let mut deleted = deleted;
                let mut live = live;
                match result {
                    Err(e) => TruncateRun::Failed { error: e },
                    Ok(segment) => {
                        if deleted.len() < segment_delta.len() {
                            deleted.push(segment);
                        } else {
                            live.push(segment);
                        }
                        resolve_or_plan(history, segment_delta, deleted, live)
                    },
                }
            },
            other => other,
        }
    }

    /// Takes the outcome of the removal that `request` asked for. The run
    /// finishes with the row once the last removal of the plan succeeds, and
    /// stops at the first that fails.
    pub fn on_removed(self, result: Result<(), GcError>) -> (r: TruncateRun)
        requires
            self is Removing,
            self.wf(),
        ensures
            r.wf(),
            match result {
                Err(e) => r == (TruncateRun::Failed { error: e }),
                Ok(_) => if self.removed_count() + 1 == self->plan.order().len() {
                    r matches TruncateRun::Finished { rows: Some(c) } && c.snapshot_removed
                        == self->plan.snapshots.len() && c.segment_removed
                        == self->plan.segments.len() && c.block_removed == self->plan.blocks.len()
                } else {
                    r is Removing && r->plan == self->plan && r.removed_count()
                        == self.removed_count() + 1
                },
            },
    {
        match self {
            TruncateRun::Removing { plan, blocks_removed, segments_removed, snapshots_removed } => {
                match result {
                    Err(e) => TruncateRun::Failed { error: e },
                    Ok(_) => {
                        let mut b = blocks_removed;
                        let mut s = segments_removed;
                        let mut n = snapshots_removed;
                        if b < plan.blocks.len() {
                            b += 1;
                        } else if s < plan.segments.len() {
                            s += 1;
                        } else {
                            n += 1;
                        }
                        if n == plan.snapshots.len() {
                            TruncateRun::Finished { rows: Some(plan.counts()) }
                        } else {
                            TruncateRun::Removing {
                                plan,
                                blocks_removed: b,
                                segments_removed: s,
                                snapshots_removed: n,
                            }
                        }
                    },
                }
            },
            other => other,
        }
    }

    /// Whether the run has finished or failed.
    pub fn is_done(&self) -> (r: bool)
        ensures
            r == (self is Finished || self is Failed),
    {
        match self {
            TruncateRun::Finished { .. } | TruncateRun::Failed { .. } => true,
            _ => false,
        }
    }

    /// The outcome of a run that is done: the row, if there was anything to
    /// reclaim, or the error that stopped it.
    pub fn into_result(self) -> (r: Result<Option<TruncateCounts>, GcError>)
        requires
            self is Finished || self is Failed,
        ensures
            self is Finished ==> r == Ok::<Option<TruncateCounts>, GcError>(self->rows),
            self is Failed ==> r == Err::<Option<TruncateCounts>, GcError>(self->error),
    {
        match self {
            TruncateRun::Finished { rows } => Ok(rows),
            TruncateRun::Failed { error } => Err(error),
            TruncateRun::Walking { .. } | TruncateRun::Resolving { .. } | TruncateRun::Removing { .. } => Ok(None),
        }
    }
}

/// After a run over a complete walk has made every removal of its plan, a
/// second run finds nothing to reclaim: every superseded snapshot was
/// removed while the current one was not, so the history has collapsed to
/// the current snapshot, whose segment delta is empty and on which a run
/// reports no rows.
pub proof fn lemma_rerun_reclaims_nothing(chain: Seq<HistoryEntry>, plan: RemovalPlan, r: TruncateRun)
    requires
        walk_complete(chain),
        chain.len() >= 2,
        snapshots_oldest_first(chain, plan.snapshots@),
        after_walk(seq![chain[0]], r),
    ensures
        forall|i: int| 1 <= i < chain.len() ==> locs(plan.snapshots@).contains(#[trigger] chain[i].location@),
        !locs(plan.snapshots@).contains(chain[0].location@),
        segment_delta_set(seq![chain[0]]).is_empty(),
        r == (TruncateRun::Finished { rows: None }),
{
    assert forall|i: int| 1 <= i < chain.len() implies locs(plan.snapshots@).contains(
        #[trigger] chain[i].location@,
    ) by {
        let j = chain.len() - 1 - i;
        assert(locs(plan.snapshots@)[j] == plan.snapshots@[j]@);
    }
    if locs(plan.snapshots@).contains(chain[0].location@) {
        let j = choose|j: int|
            0 <= j < locs(plan.snapshots@).len() && locs(plan.snapshots@)[j] == chain[0].location@;
        let i = chain.len() - 1 - j;
        assert(plan.snapshots@[j]@ == chain[i].location@);
        assert(entry_locations(chain)[i] == entry_locations(chain)[0]);
    }
    assert(seq![chain[0]].subrange(1, 1) =~= Seq::<HistoryEntry>::empty());
    assert(historical_segments(seq![chain[0]]) =~= Set::empty());
}

} // verus!
