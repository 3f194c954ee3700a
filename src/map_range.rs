use vstd::prelude::*;

verus! {

/// Read, write and execute flags of a mapping, and whether it is shared.
#[derive(Clone, Copy, Debug, PartialEq, Eq, Structural)]
pub struct Permissions {
    pub read: bool,
    pub write: bool,
    pub execute: bool,
    pub shared: bool,
}

/// One contiguous region of a process's virtual memory.
#[derive(Clone, Debug)]
pub struct MapRange {
    pub range_start: usize,
    pub range_end: usize,
    /// Byte offset into the backing file; 0 for anonymous memory.
    pub offset: usize,
    /// Major and minor number of the backing device; 0 where none applies.
    pub dev_major: usize,
    pub dev_minor: usize,
    /// Inode of the backing file; 0 for anonymous memory.
    pub inode: usize,
    pub perms: Permissions,
    /// Path or pseudo-name (`[heap]`, `[stack]`) of what backs the region.
    pub pathname: Option<Vec<u8>>,
}

/// What a record says, as mathematical values.
pub ghost struct MapRangeView {
    pub start: nat,
    pub end: nat,
    pub offset: nat,
    pub dev_major: nat,
    pub dev_minor: nat,
    pub inode: nat,
    pub perms: Permissions,
    pub filename: Option<Seq<u8>>,
}

pub open spec fn filename_view(p: Option<Vec<u8>>) -> Option<Seq<u8>> {
    match p {
        Some(v) => Some(v@),
        None => None,
    }
}

impl View for MapRange {
    type V = MapRangeView;

    open spec fn view(&self) -> MapRangeView {
        MapRangeView {
            start: self.range_start as nat,
            end: self.range_end as nat,
            offset: self.offset as nat,
            dev_major: self.dev_major as nat,
            dev_minor: self.dev_minor as nat,
            inode: self.inode as nat,
            perms: self.perms,
            filename: filename_view(self.pathname),
        }
    }
}

impl MapRangeView {
    pub open spec fn size(self) -> int {
        self.end - self.start
    }

    /// A record covers a nonempty range and names no empty file.
    pub open spec fn wf(self) -> bool {
        &&& self.start < self.end
        &&& match self.filename {
            Some(f) => f.len() > 0,
            None => true,
        }
    }

    pub open spec fn contains(self, addr: int) -> bool {
        self.start <= addr < self.end
    }
}

/// The views of a list of records.
pub open spec fn views(s: Seq<MapRange>) -> Seq<MapRangeView> {
    s.map_values(|r: MapRange| r@)
}

/// Every record is well formed, and each one ends at or before the next begins:
/// sorted by start and free of overlap.
pub open spec fn ordered(s: Seq<MapRangeView>) -> bool {
    &&& forall|i: int| 0 <= i < s.len() ==> #[trigger] s[i].wf()
    &&& forall|i: int| 0 <= i < s.len() - 1 ==> #[trigger] s[i].end <= s[i + 1].start
}

impl MapRange {
    /// Address at which the region begins.
    pub fn start(&self) -> (r: usize)
        ensures
            r == self.range_start,
    {
        self.range_start
    }

    /// Address just past the region.
    pub fn end(&self) -> (r: usize)
        ensures
            r == self.range_end,
    {
        self.range_end
    }

    /// Length of the region in bytes.
    pub fn size(&self) -> (r: usize)
        requires
            self.range_start <= self.range_end,
        ensures
            r == self.range_end - self.range_start,
    {
        self.range_end - self.range_start
    }

    /// Byte offset into the backing file.
    pub fn offset(&self) -> (r: usize)
        ensures
            r == self.offset,
    {
        self.offset
    }

    /// Major and minor number of the backing device.
    pub fn device(&self) -> (r: (usize, usize))
        ensures
            r == (self.dev_major, self.dev_minor),
    {
        (self.dev_major, self.dev_minor)
    }

    /// Inode of the backing file.
    pub fn inode(&self) -> (r: usize)
        ensures
            r == self.inode,
    {
        self.inode
    }

    /// The flags of the region.
    pub fn permissions(&self) -> (r: Permissions)
        ensures
            r == self.perms,
    {
        self.perms
    }

    /// Path or pseudo-name of what backs the region, if any.
    pub fn filename(&self) -> (r: Option<&Vec<u8>>)
        ensures
            r == match self.pathname {
                Some(ref p) => Some(p),
                None => None::<&Vec<u8>>,
            },
    {
        match &self.pathname {
            Some(p) => Some(p),
            None => None,
        }
    }

    pub fn is_read(&self) -> (r: bool)
        ensures
            r == self.perms.read,
    {
        self.perms.read
    }

    pub fn is_write(&self) -> (r: bool)
        ensures
            r == self.perms.write,
    {
        self.perms.write
    }

    pub fn is_exec(&self) -> (r: bool)
        ensures
            r == self.perms.execute,
    {
        self.perms.execute
    }

    pub fn is_shared(&self) -> (r: bool)
        ensures
            r == self.perms.shared,
    {
        self.perms.shared
    }
}

} // verus!
