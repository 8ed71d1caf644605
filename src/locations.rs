use vstd::prelude::*;
use crate::model::{locs, loc_set, lists_exactly, lemma_loc_set_push, lemma_loc_set_prefix};

verus! {

/// Whether `v` holds the location `l`.
pub fn contains_location(v: &Vec<String>, l: &String) -> (r: bool)
    ensures
        r == locs(v@).contains(l@),
{
    let mut i: usize = 0;
    while i < v.len()
        invariant
            0 <= i <= v.len(),
            forall|j: int| 0 <= j < i ==> v@[j]@ != l@,
        decreases v.len() - i,
    {
        if v[i] == *l {
            assert(locs(v@)[i as int] == l@);
            return true;
        }
        i += 1;
    }
    proof {
        if locs(v@).contains(l@) {
            let k = choose|k: int| 0 <= k < locs(v@).len() && locs(v@)[k] == l@;
            assert(v@[k]@ == l@);
        }
    }
    false
}

/// Adds `l` to a duplicate-free vector of locations, unless it is already
/// there.
pub fn insert_location(v: &mut Vec<String>, l: &String)
    requires
        locs(old(v)@).no_duplicates(),
    ensures
        locs(final(v)@).no_duplicates(),
        loc_set(final(v)@) == loc_set(old(v)@).insert(l@),
{
    if !contains_location(v, l) {
        let ghost before = v@;
        v.push(l.clone());
        proof {
            lemma_loc_set_push(before, *l);
        }
    } else {
        assert(loc_set(v@) =~= loc_set(v@).insert(l@));
    }
}

/// Adds every location of `src` to a duplicate-free vector of locations.
pub fn insert_all_locations(v: &mut Vec<String>, src: &Vec<String>)
    requires
        locs(old(v)@).no_duplicates(),
    ensures
        locs(final(v)@).no_duplicates(),
        loc_set(final(v)@) == loc_set(old(v)@).union(loc_set(src@)),
{
    let ghost start = v@;
    let mut i: usize = 0;
    while i < src.len()
        invariant
            0 <= i <= src.len(),
            locs(v@).no_duplicates(),
            loc_set(v@) == loc_set(start).union(loc_set(src@.subrange(0, i as int))),
        decreases src.len() - i,
    {
        insert_location(v, &src[i]);
        proof {
            lemma_loc_set_prefix(src@, i as int);
            assert(loc_set(v@) =~= loc_set(start).union(loc_set(src@.subrange(0, i + 1))));
        }
        i += 1;
    }
    assert(src@.subrange(0, src@.len() as int) == src@);
}

/// The locations of `a` that are not in `b`, each once.
pub fn location_difference(a: &Vec<String>, b: &Vec<String>) -> (r: Vec<String>)
    ensures
        lists_exactly(r@, loc_set(a@).difference(loc_set(b@))),
{
    let mut r: Vec<String> = Vec::new();
    let mut i: usize = 0;
    while i < a.len()
        invariant
            0 <= i <= a.len(),
            locs(r@).no_duplicates(),
            loc_set(r@) == loc_set(a@.subrange(0, i as int)).difference(loc_set(b@)),
        decreases a.len() - i,
    {
        let ghost before = r@;
        if !contains_location(b, &a[i]) {
            insert_location(&mut r, &a[i]);
        }
        proof {
            lemma_loc_set_prefix(a@, i as int);
            assert(loc_set(r@) =~= loc_set(a@.subrange(0, i + 1)).difference(loc_set(b@)));
        }
        i += 1;
    }
    assert(a@.subrange(0, a@.len() as int) == a@);
    r
}

} // verus!
