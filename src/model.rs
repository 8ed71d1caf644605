use vstd::prelude::*;

verus! {

/// An immutable point-in-time description of a table: the segments that make
/// up its content and, unless it is the oldest one known, where its
/// predecessor is stored.
#[derive(Debug, Clone, PartialEq, Eq)]
pub struct Snapshot {
    pub snapshot_id: String,
    pub segments: Vec<String>,
    pub prev_snapshot_location: Option<String>,
}

/// The metadata of a segment: the locations of its data blocks, in order.
#[derive(Debug, Clone, PartialEq, Eq)]
pub struct Segment {
    pub blocks: Vec<String>,
}

/// A snapshot together with the location it was read from.
#[derive(Debug, Clone, PartialEq, Eq)]
pub struct HistoryEntry {
    pub location: String,
    pub snapshot: Snapshot,
}

/// Why a run stopped.
#[derive(Debug, Clone, PartialEq, Eq)]
pub enum GcError {
    /// The table is not stored by the engine this collector applies to.
    UnsupportedEngine(String),
    /// A location that something refers to is missing from the store.
    NotFound(String),
    /// Metadata at a location could not be decoded, or contradicts itself.
    MetadataCorrupt(String),
    /// The store failed to read or remove a location.
    StoreError(String),
    /// The table function was invoked with arguments it cannot use.
    BadArguments(String),
}

/// The output row of a run that had something to reclaim.
#[derive(Debug, Clone, Copy, PartialEq, Eq, Structural)]
pub struct TruncateCounts {
    pub snapshot_removed: u64,
    pub segment_removed: u64,
    pub block_removed: u64,
}

/// The views of a sequence of locations.
pub open spec fn locs(v: Seq<String>) -> Seq<Seq<char>> {
    v.map_values(|s: String| s@)
}

/// The set of locations that a sequence holds.
pub open spec fn loc_set(v: Seq<String>) -> Set<Seq<char>> {
    locs(v).to_set()
}

/// `v` holds each location of `s` exactly once, and nothing else.
pub open spec fn lists_exactly(v: Seq<String>, s: Set<Seq<char>>) -> bool {
    &&& locs(v).no_duplicates()
    &&& loc_set(v) == s
}

/// The locations that the entries of a history were read from.
pub open spec fn entry_locations(chain: Seq<HistoryEntry>) -> Seq<Seq<char>> {
    chain.map_values(|e: HistoryEntry| e.location@)
}

/// Appending a location adds its view to the sequence and to the set.
pub proof fn lemma_loc_set_push(s: Seq<String>, x: String)
    ensures
        locs(s.push(x)) == locs(s).push(x@),
        loc_set(s.push(x)) == loc_set(s).insert(x@),
{
    assert(locs(s.push(x)) =~= locs(s).push(x@));
    locs(s).lemma_push_to_set_commute(x@);
}

/// The prefix of length `i + 1` is the prefix of length `i` and one more.
pub proof fn lemma_loc_set_prefix(s: Seq<String>, i: int)
    requires
        0 <= i < s.len(),
    ensures
        loc_set(s.subrange(0, i + 1)) == loc_set(s.subrange(0, i)).insert(s[i]@),
{
    assert(s.subrange(0, i + 1) =~= s.subrange(0, i).push(s[i]));
    lemma_loc_set_push(s.subrange(0, i), s[i]);
}

} // verus!
