//! Which segments and blocks only superseded snapshots reach.
use vstd::prelude::*;
use crate::model::{HistoryEntry, Segment, loc_set, lists_exactly, locs};
use crate::locations::{insert_all_locations, location_difference};

verus! {

/// The segment locations of the current snapshot, the head of the chain.
pub open spec fn current_segments(chain: Seq<HistoryEntry>) -> Set<Seq<char>>
    recommends
        chain.len() > 0,
{
    loc_set(chain[0].snapshot.segments@)
}

/// The segment locations that some entry of `entries` lists.
pub open spec fn segment_union(entries: Seq<HistoryEntry>) -> Set<Seq<char>> {
    Set::new(
        |l: Seq<char>|
            exists|i: int|
                0 <= i < entries.len() && #[trigger] loc_set(entries[i].snapshot.segments@).contains(
                    l,
                ),
    )
}

/// The segment locations of the superseded snapshots: every entry but the head.
pub open spec fn historical_segments(chain: Seq<HistoryEntry>) -> Set<Seq<char>> {
    segment_union(chain.subrange(1, chain.len() as int))
}

/// The segments that superseded snapshots list and the current one does not.
pub open spec fn segment_delta_set(chain: Seq<HistoryEntry>) -> Set<Seq<char>> {
    historical_segments(chain).difference(current_segments(chain))
}

/// The block locations that some segment of `segments` lists.
pub open spec fn blocks_of_set(segments: Seq<Segment>) -> Set<Seq<char>> {
    Set::new(
        |l: Seq<char>|
            exists|i: int|
                0 <= i < segments.len() && #[trigger] loc_set(segments[i].blocks@).contains(l),
    )
}

/// The blocks of the segments to be deleted that no live segment lists.
pub open spec fn block_delta_set(deleted: Seq<Segment>, live: Seq<Segment>) -> Set<Seq<char>> {
    blocks_of_set(deleted).difference(blocks_of_set(live))
}

proof fn lemma_segment_union_push(entries: Seq<HistoryEntry>, e: HistoryEntry)
    ensures
        segment_union(entries.push(e)) == segment_union(entries).union(
            loc_set(e.snapshot.segments@),
        ),
{
    let lhs = segment_union(entries.push(e));
    let rhs = segment_union(entries).union(loc_set(e.snapshot.segments@));
    assert forall|l: Seq<char>| lhs.contains(l) implies rhs.contains(l) by {
        let i = choose|i: int|
            0 <= i < entries.push(e).len() && #[trigger] loc_set(
                entries.push(e)[i].snapshot.segments@,
            ).contains(l);
        if i < entries.len() {
            assert(loc_set(entries[i].snapshot.segments@).contains(l));
        }
    }
    assert forall|l: Seq<char>| rhs.contains(l) implies lhs.contains(l) by {
        if segment_union(entries).contains(l) {
            let i = choose|i: int|
                0 <= i < entries.len() && #[trigger] loc_set(
                    entries[i].snapshot.segments@,
                ).contains(l);
            assert(loc_set(entries.push(e)[i].snapshot.segments@).contains(l));
        } else {
            assert(loc_set(entries.push(e)[entries.len() as int].snapshot.segments@).contains(l));
        }
    }
    assert(lhs =~= rhs);
}

proof fn lemma_blocks_of_set_push(segments: Seq<Segment>, s: Segment)
    ensures
        blocks_of_set(segments.push(s)) == blocks_of_set(segments).union(loc_set(s.blocks@)),
{
    let lhs = blocks_of_set(segments.push(s));
    let rhs = blocks_of_set(segments).union(loc_set(s.blocks@));
    assert forall|l: Seq<char>| lhs.contains(l) implies rhs.contains(l) by {
        let i = choose|i: int|
            0 <= i < segments.push(s).len() && #[trigger] loc_set(
                segments.push(s)[i].blocks@,
            ).contains(l);
        if i < segments.len() {
            assert(loc_set(segments[i].blocks@).contains(l));
        }
    }
    assert forall|l: Seq<char>| rhs.contains(l) implies lhs.contains(l) by {
        if blocks_of_set(segments).contains(l) {
            let i = choose|i: int|
                0 <= i < segments.len() && #[trigger] loc_set(segments[i].blocks@).contains(l);
            assert(loc_set(segments.push(s)[i].blocks@).contains(l));
        } else {
            assert(loc_set(segments.push(s)[segments.len() as int].blocks@).contains(l));
        }
    }
    assert(lhs =~= rhs);
}

/// The segments that only superseded snapshots list, each once. The head of
/// `chain` is the current snapshot.
pub fn segment_delta(chain: &Vec<HistoryEntry>) -> (r: Vec<String>)
    requires
        chain.len() >= 1,
    ensures
        lists_exactly(r@, segment_delta_set(chain@)),
{
    let mut prev: Vec<String> = Vec::new();
    let mut i: usize = 1;
    assert(segment_union(chain@.subrange(1, 1)) =~= Set::empty());
    assert(loc_set(prev@) =~= Set::empty());
    while i < chain.len()
        invariant
            1 <= i <= chain.len(),
            locs(prev@).no_duplicates(),
            loc_set(prev@) == segment_union(chain@.subrange(1, i as int)),
        decreases chain.len() - i,
    {
        insert_all_locations(&mut prev, &chain[i].snapshot.segments);
        proof {
            assert(chain@.subrange(1, i + 1) =~= chain@.subrange(1, i as int).push(chain@[i as int]));
            lemma_segment_union_push(chain@.subrange(1, i as int), chain@[i as int]);
        }
        i += 1;
    }
    location_difference(&prev, &chain[0].snapshot.segments)
}

/// The blocks that the given segments list, each once.
pub fn blocks_of(segments: &Vec<Segment>) -> (r: Vec<String>)
    ensures
        lists_exactly(r@, blocks_of_set(segments@)),
{
    let mut r: Vec<String> = Vec::new();
    let mut i: usize = 0;
    assert(blocks_of_set(segments@.subrange(0, 0)) =~= Set::empty());
    assert(loc_set(r@) =~= Set::empty());
    while i < segments.len()
        invariant
            0 <= i <= segments.len(),
            locs(r@).no_duplicates(),
            loc_set(r@) == blocks_of_set(segments@.subrange(0, i as int)),
        decreases segments.len() - i,
    {
        insert_all_locations(&mut r, &segments[i].blocks);
        proof {
            assert(segments@.subrange(0, i + 1) =~= segments@.subrange(0, i as int).push(
                segments@[i as int],
            ));
            lemma_blocks_of_set_push(segments@.subrange(0, i as int), segments@[i as int]);
        }
        i += 1;
    }
    assert(segments@.subrange(0, segments@.len() as int) == segments@);
    r
}

/// The blocks of the segments to be deleted that no live segment lists, each
/// once.
pub fn block_delta(deleted: &Vec<Segment>, live: &Vec<Segment>) -> (r: Vec<String>)
    ensures
        lists_exactly(r@, block_delta_set(deleted@, live@)),
{
    let prev_blocks = blocks_of(deleted);
    let current_blocks = blocks_of(live);
    location_difference(&prev_blocks, &current_blocks)
}

/// Nothing that the current snapshot reaches is ever a deletion candidate:
/// none of its segments is in the segment delta, and no block of the live
/// segments (those that its segment locations name) is in the block delta.
pub proof fn lemma_delta_sound(chain: Seq<HistoryEntry>, deleted: Seq<Segment>, live: Seq<Segment>)
    requires
        chain.len() >= 1,
    ensures
        forall|l: Seq<char>|
            current_segments(chain).contains(l) ==> !(#[trigger] segment_delta_set(chain).contains(
                l,
            )),
        forall|b: Seq<char>|
            blocks_of_set(live).contains(b) ==> !(#[trigger] block_delta_set(deleted, live).contains(
                b,
            )),
{
}

/// Every segment that a superseded snapshot lists and the current one does
/// not stands in the segment delta exactly once, however many superseded
/// snapshots list it.
pub proof fn lemma_delta_complete(chain: Seq<HistoryEntry>, delta: Seq<String>)
    requires
        chain.len() >= 1,
        lists_exactly(delta, segment_delta_set(chain)),
    ensures
        forall|l: Seq<char>|
            historical_segments(chain).contains(l) && !current_segments(chain).contains(l)
                ==> #[trigger] locs(delta).to_multiset().count(l) == 1,
{
    locs(delta).lemma_multiset_has_no_duplicates();
    assert forall|l: Seq<char>|
        historical_segments(chain).contains(l) && !current_segments(chain).contains(l)
            implies #[trigger] locs(delta).to_multiset().count(l) == 1 by {
        assert(locs(delta).to_set().contains(l));
        locs(delta).to_multiset_ensures();
    }
}

/// A block that a segment to be deleted shares with a live segment is kept.
pub proof fn lemma_shared_block_kept(deleted: Seq<Segment>, live: Seq<Segment>, b: Seq<char>)
    requires
        blocks_of_set(deleted).contains(b),
        blocks_of_set(live).contains(b),
    ensures
        !block_delta_set(deleted, live).contains(b),
{
}

} // verus!
