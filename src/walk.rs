//! The decisions of a walk over a process's address space by a region query:
//! where to ask next, which replies become records, and when the walk ends.
//! The caller runs the queries and hands each reply to [`RegionWalk::step`].
use vstd::prelude::*;
use crate::error::MapsError;
use crate::map_range::{MapRange, MapRangeView, Permissions, views, ordered};

verus! {

/// One reply of the region query, already in the library's terms.
pub enum RegionReply {
    /// A mapped region, to be recorded.
    Mapped {
        start: usize,
        size: usize,
        perms: Permissions,
        offset: usize,
        filename: Option<Vec<u8>>,
    },
    /// A range that nothing maps: skipped.
    Unmapped { start: usize, size: usize },
    /// A region made of nested regions: asked again one level deeper.
    Submap { start: usize, size: usize },
    /// No region lies at or after the address asked: the walk is complete.
    End,
    /// The query failed.
    Failed(MapsError),
}

/// What the caller does next.
#[derive(Clone, Copy, Debug, PartialEq, Eq, Structural)]
pub enum WalkAction {
    /// Ask for the region at or after `address`, at nesting `depth`.
    Query { address: usize, depth: u32 },
    /// The walk is complete; the records are final.
    Finished,
    /// The walk failed and its records are void.
    Failed(MapsError),
}

/// The state of a walk: the next address to ask for, the nesting depth, and
/// the records found so far.
pub struct RegionWalk {
    pub next: usize,
    pub depth: u32,
    pub records: Vec<MapRange>,
    pub done: bool,
}

/// Every record is ordered and lies below the next address to ask for.
pub open spec fn below(s: Seq<MapRangeView>, next: int) -> bool {
    forall|i: int| 0 <= i < s.len() ==> (#[trigger] s[i]).end <= next
}

impl RegionWalk {
    pub open spec fn wf(&self) -> bool {
        &&& ordered(views(self.records@))
        &&& below(views(self.records@), self.next as int)
    }

    /// A walk from address 0, with nothing found.
    pub fn new() -> (r: RegionWalk)
        ensures
            r.wf(),
            r.next == 0,
            r.depth == 0,
            r.records@.len() == 0,
            !r.done,
    {
        let r = RegionWalk { next: 0, depth: 0, records: Vec::new(), done: false };
        assert(views(r.records@) =~= Seq::<MapRangeView>::empty());
        r
    }

    /// The first query of a walk.
    pub fn first_query(&self) -> (r: WalkAction)
        ensures
            r == (WalkAction::Query { address: self.next, depth: self.depth }),
    {
        WalkAction::Query { address: self.next, depth: self.depth }
    }

    /// Takes one reply and says what to do next. A region must lie at or after
    /// the address asked for, be nonempty and end within the address space;
    /// else the walk fails with `MalformedData`.
    pub fn step(&mut self, reply: RegionReply) -> (r: WalkAction)
        requires
            old(self).wf(),
            !old(self).done,
        ensures
            final(self).wf(),
            match reply {
                RegionReply::Mapped { start, size, perms, offset, filename } => {
                    if start < old(self).next || size == 0 || start + size > usize::MAX
                        || (filename matches Some(f) && f@.len() == 0) {
                        &&& r == WalkAction::Failed(MapsError::MalformedData)
                        &&& final(self).done
                        &&& final(self).records == old(self).records
                    } else {
                        &&& r == (WalkAction::Query { address: (start + size) as usize, depth: old(self).depth })
                        &&& !final(self).done
                        &&& final(self).next == start + size
                        &&& final(self).depth == old(self).depth
                        &&& views(final(self).records@) == views(old(self).records@).push(
                            MapRangeView {
                                start: start as nat,
                                end: (start + size) as nat,
                                offset: offset as nat,
                                dev_major: 0,
                                dev_minor: 0,
                                inode: 0,
                                perms,
                                filename: match filename {
                                    Some(f) => Some(f@),
                                    None => None,
                                },
                            },
                        )
                    }
                },
                RegionReply::Unmapped { start, size } => {
                    if start < old(self).next || size == 0 || start + size > usize::MAX {
                        &&& r == WalkAction::Failed(MapsError::MalformedData)
                        &&& final(self).done
                        &&& final(self).records == old(self).records
                    } else {
                        &&& r == (WalkAction::Query { address: (start + size) as usize, depth: old(self).depth })
                        &&& !final(self).done
                        &&& final(self).next == start + size
                        &&& final(self).depth == old(self).depth
                        &&& final(self).records == old(self).records
                    }
                },
                RegionReply::Submap { start, size } => {
                    if start < old(self).next || size == 0 || old(self).depth == u32::MAX {
                        &&& r == WalkAction::Failed(MapsError::MalformedData)
                        &&& final(self).done
                        &&& final(self).records == old(self).records
                    } else {
                        &&& r == (WalkAction::Query { address: start, depth: (old(self).depth + 1) as u32 })
                        &&& !final(self).done
                        &&& final(self).next == start
                        &&& final(self).depth == old(self).depth + 1
                        &&& final(self).records == old(self).records
                    }
                },
                RegionReply::End => {
                    &&& r == WalkAction::Finished
                    &&& final(self).done
                    &&& final(self).records == old(self).records
                },
                RegionReply::Failed(e) => {
                    &&& r == WalkAction::Failed(e)
                    &&& final(self).done
                    &&& final(self).records == old(self).records
                },
            },
    {
        match reply {
            RegionReply::Mapped { start, size, perms, offset, filename } => {
                let empty_name = match &filename {
                    Some(f) => f.len() == 0,
                    None => false,
                };
                if start < self.next || size == 0 || size > usize::MAX - start || empty_name {
                    self.done = true;
                    return WalkAction::Failed(MapsError::MalformedData);
                }
                let end = start + size;
                let ghost before = views(self.records@);
                let rec = MapRange {
                    range_start: start,
                    range_end: end,
                    offset,
                    dev_major: 0,
                    dev_minor: 0,
                    inode: 0,
                    perms,
                    pathname: filename,
                };
                self.records.push(rec);
                self.next = end;
                proof {
                    let a = views(self.records@);
                    assert(a =~= before.push(rec@));
                    let k = before.len() as int;
                    assert forall|j: int| 0 <= j < a.len() implies #[trigger] a[j].wf() by {
                        if j < k {
                            assert(a[j] == before[j]);
                        }
                    }
                    assert forall|j: int| 0 <= j < a.len() - 1 implies #[trigger] a[j].end <= a[j + 1].start by {
                        assert(a[j] == before[j]);
                        if j + 1 < k {
                            assert(a[j + 1] == before[j + 1]);
                        }
                    }
                    assert forall|j: int| 0 <= j < a.len() implies (#[trigger] a[j]).end <= end by {
                        if j < k {
                            assert(a[j] == before[j]);
                        }
                    }
                }
                WalkAction::Query { address: end, depth: self.depth }
            },
            RegionReply::Unmapped { start, size } => {
                if start < self.next || size == 0 || size > usize::MAX - start {
                    self.done = true;
                    return WalkAction::Failed(MapsError::MalformedData);
                }
                self.next = start + size;
                WalkAction::Query { address: self.next, depth: self.depth }
            },
            RegionReply::Submap { start, size } => {
                if start < self.next || size == 0 || self.depth == u32::MAX {
                    self.done = true;
                    return WalkAction::Failed(MapsError::MalformedData);
                }
                self.next = start;
                self.depth = self.depth + 1;
                WalkAction::Query { address: start, depth: self.depth }
            },
            RegionReply::End => {
                self.done = true;
                WalkAction::Finished
            },
            RegionReply::Failed(e) => {
                self.done = true;
                WalkAction::Failed(e)
            },
        }
    }

    /// The records of a walk, in order of address and free of overlap.
    pub fn into_records(self) -> (r: Vec<MapRange>)
        requires
            self.wf(),
        ensures
            r == self.records,
            ordered(views(r@)),
    {
        self.records
    }
}

} // verus!
