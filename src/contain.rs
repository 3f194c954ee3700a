use vstd::prelude::*;
use crate::map_range::{MapRange, MapRangeView, views, ordered};

verus! {

/// Some record of `s` covers `addr`.
pub open spec fn contains_addr(addr: int, s: Seq<MapRangeView>) -> bool {
    exists|i: int| 0 <= i < s.len() && (#[trigger] s[i]).contains(addr)
}

fn map_contain_addr(map: &MapRange, addr: usize) -> (r: bool)
    ensures
        r == map@.contains(addr as int),
{
    let start = map.start();
    addr >= start && addr < map.end()
}

/// Whether any of the records covers the given address.
pub fn maps_contain_addr(addr: usize, maps: &[MapRange]) -> (r: bool)
    ensures
        r == contains_addr(addr as int, views(maps@)),
{
    let mut i: usize = 0;
    while i < maps.len()
        invariant
            0 <= i <= maps@.len(),
            forall|j: int| 0 <= j < i ==> !(#[trigger] maps@[j])@.contains(addr as int),
        decreases maps@.len() - i,
    {
        if map_contain_addr(&maps[i], addr) {
            assert(views(maps@)[i as int].contains(addr as int));
            return true;
        }
        i += 1;
    }
    assert forall|j: int| 0 <= j < views(maps@).len() implies !(#[trigger] views(maps@)[j]).contains(addr as int) by {
        assert(!maps@[j]@.contains(addr as int));
    }
    false
}

} // verus!

verus! {

/// In an ordered list, a record ends at or before any later record begins.
pub proof fn lemma_ordered_chain(s: Seq<MapRangeView>, i: int, j: int)
    requires
        ordered(s),
        0 <= i < j < s.len(),
    ensures
        s[i].end <= s[j].start,
    decreases j - i,
{
    if i + 1 < j {
        lemma_ordered_chain(s, i + 1, j);
        assert(s[i + 1].wf());
        assert(s[i].end <= s[i + 1].start);
    } else {
        assert(s[i].end <= s[i + 1].start);
    }
}

/// In an ordered list every record covers its own start, and the address just
/// past a record is covered only where another record begins exactly there.
pub proof fn lemma_containment_agreement(s: Seq<MapRangeView>, k: int)
    requires
        ordered(s),
        0 <= k < s.len(),
    ensures
        contains_addr(s[k].start as int, s),
        contains_addr(s[k].end as int, s) ==> exists|j: int|
            0 <= j < s.len() && j != k && (#[trigger] s[j]).start == s[k].end,
{
    assert(s[k].wf());
    assert(s[k].contains(s[k].start as int));
    if contains_addr(s[k].end as int, s) {
        let i = choose|i: int| 0 <= i < s.len() && (#[trigger] s[i]).contains(s[k].end as int);
        assert(s[i].wf());
        if i < k {
            lemma_ordered_chain(s, i, k);
        } else if i > k {
            lemma_ordered_chain(s, k, i);
        }
        assert(i > k);
        assert(s[i].start == s[k].end);
    }
}

} // verus!
