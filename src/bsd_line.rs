//! One line of the FreeBSD listing, whose fields are blank-separated:
//! `start end resident private-resident object rwx refs shadows flags
//! cow needs-copy type path ...`, addresses written `0x`-prefixed.
use vstd::prelude::*;
use vstd::slice::{slice_subrange, slice_to_vec};
use crate::map_range::{MapRange, MapRangeView, Permissions};
use crate::scan::{skip_blanks, field_end, number_of, skip_blanks_from, field_end_from, parse_number, lemma_skip_blanks_bounds, lemma_field_end_bounds};
use crate::text_maps::{BLANK, DASH, record_view};

verus! {

/// Where field `n` (from 0) of `l` begins and ends.
pub open spec fn nth_field(l: Seq<u8>, n: nat) -> (int, int)
    decreases n,
{
    let from = if n == 0 {
        0
    } else {
        nth_field(l, (n - 1) as nat).1
    };
    let p = skip_blanks(l, from);
    (p, field_end(l, p, BLANK))
}

pub open spec fn field(l: Seq<u8>, n: nat) -> Seq<u8> {
    l.subrange(nth_field(l, n).0, nth_field(l, n).1)
}

pub proof fn lemma_nth_field_bounds(l: Seq<u8>, n: nat)
    ensures
        0 <= nth_field(l, n).0 <= nth_field(l, n).1 <= l.len(),
    decreases n,
{
    let from = if n == 0 {
        0
    } else {
        lemma_nth_field_bounds(l, (n - 1) as nat);
        nth_field(l, (n - 1) as nat).1
    };
    lemma_skip_blanks_bounds(l, from);
    lemma_field_end_bounds(l, skip_blanks(l, from), BLANK);
}

/// A number written in hexadecimal after `0x`.
pub open spec fn prefixed_hex(f: Seq<u8>) -> Option<usize> {
    if f.len() >= 2 && f[0] == 0x30u8 && f[1] == 0x78u8 {
        number_of(f.subrange(2, f.len() as int), 16)
    } else {
        None
    }
}

/// A three-byte field of flags such as `r-x`.
pub open spec fn is_rwx(f: Seq<u8>) -> bool {
    f.len() == 3 && (f[0] == 0x72u8 || f[0] == DASH) && (f[1] == 0x77u8 || f[1] == DASH) && (f[2]
        == 0x78u8 || f[2] == DASH)
}

/// `COW`: the mapping is private, copied on write.
pub open spec fn is_cow(f: Seq<u8>) -> bool {
    f.len() == 3 && f[0] == 0x43u8 && f[1] == 0x4fu8 && f[2] == 0x57u8
}

/// `NCOW`: the mapping is shared.
pub open spec fn is_ncow(f: Seq<u8>) -> bool {
    f.len() == 4 && f[0] == 0x4eu8 && f[1] == 0x43u8 && f[2] == 0x4fu8 && f[3] == 0x57u8
}

/// The record that a FreeBSD line describes; a path of `-` names no file.
pub open spec fn bsd_line_record(l: Seq<u8>) -> Option<MapRangeView> {
    let start = prefixed_hex(field(l, 0));
    let end = prefixed_hex(field(l, 1));
    let rwx = field(l, 5);
    let cow = field(l, 9);
    let path = field(l, 12);
    if start is Some && end is Some && start->0 < end->0 && is_rwx(rwx) && (is_cow(cow) || is_ncow(
        cow,
    )) && path.len() > 0 {
        Some(
            MapRangeView {
                start: start->0 as nat,
                end: end->0 as nat,
                offset: 0,
                dev_major: 0,
                dev_minor: 0,
                inode: 0,
                perms: Permissions {
                    read: rwx[0] == 0x72u8,
                    write: rwx[1] == 0x77u8,
                    execute: rwx[2] == 0x78u8,
                    shared: is_ncow(cow),
                },
                filename: if path.len() == 1 && path[0] == DASH {
                    None
                } else {
                    Some(path)
                },
            },
        )
    } else {
        None
    }
}

/// The bounds of the first `count` fields of `l`.
fn field_bounds(l: &[u8], count: usize) -> (r: Vec<(usize, usize)>)
    ensures
        r@.len() == count,
        forall|k: int|
            0 <= k < count ==> (#[trigger] r@[k]).0 == nth_field(l@, k as nat).0 && r@[k].1
                == nth_field(l@, k as nat).1,
{
    let mut r: Vec<(usize, usize)> = Vec::new();
    let mut from: usize = 0;
    let mut k: usize = 0;
    while k < count
        invariant
            k <= count,
            r@.len() == k,
            from <= l@.len(),
            k == 0 ==> from == 0,
            k > 0 ==> from == nth_field(l@, (k - 1) as nat).1,
            forall|j: int|
                0 <= j < k ==> (#[trigger] r@[j]).0 == nth_field(l@, j as nat).0 && r@[j].1
                    == nth_field(l@, j as nat).1,
        decreases count - k,
    {
        let p = skip_blanks_from(l, from);
        let e = field_end_from(l, p, BLANK);
        assert(nth_field(l@, k as nat) == (p as int, e as int));
        r.push((p, e));
        from = e;
        k += 1;
    }
    r
}

fn parse_prefixed_hex(f: &[u8]) -> (r: Option<usize>)
    ensures
        r == prefixed_hex(f@),
{
    if f.len() >= 2 && f[0] == 0x30u8 && f[1] == 0x78u8 {
        parse_number(slice_subrange(f, 2, f.len()), 16)
    } else {
        None
    }
}

/// Reads one line of the FreeBSD listing into a record; `None` where the
/// line does not describe one.
pub fn parse_bsd_line(l: &[u8]) -> (r: Option<MapRange>)
    ensures
        record_view(r) == bsd_line_record(l@),
{
    let b = field_bounds(l, 13);
    proof {
        lemma_nth_field_bounds(l@, 0);
        lemma_nth_field_bounds(l@, 1);
        lemma_nth_field_bounds(l@, 5);
        lemma_nth_field_bounds(l@, 9);
        lemma_nth_field_bounds(l@, 12);
    }
    let start = match parse_prefixed_hex(slice_subrange(l, b[0].0, b[0].1)) {
        Some(v) => v,
        None => return None,
    };
    let end = match parse_prefixed_hex(slice_subrange(l, b[1].0, b[1].1)) {
        Some(v) => v,
        None => return None,
    };
    if start >= end {
        return None;
    }
    let rwx = slice_subrange(l, b[5].0, b[5].1);
    if !(rwx.len() == 3 && (rwx[0] == 0x72u8 || rwx[0] == DASH) && (rwx[1] == 0x77u8 || rwx[1]
        == DASH) && (rwx[2] == 0x78u8 || rwx[2] == DASH)) {
        return None;
    }
    let cow = slice_subrange(l, b[9].0, b[9].1);
    let ncow = cow.len() == 4 && cow[0] == 0x4eu8 && cow[1] == 0x43u8 && cow[2] == 0x4fu8 && cow[3]
        == 0x57u8;
    if !(ncow || (cow.len() == 3 && cow[0] == 0x43u8 && cow[1] == 0x4fu8 && cow[2] == 0x57u8)) {
        return None;
    }
    let path = slice_subrange(l, b[12].0, b[12].1);
    if path.len() == 0 {
        return None;
    }
    let pathname = if path.len() == 1 && path[0] == DASH {
        None
    } else {
        Some(slice_to_vec(path))
    };
    let perms = Permissions {
        read: rwx[0] == 0x72u8,
        write: rwx[1] == 0x77u8,
        execute: rwx[2] == 0x78u8,
        shared: ncow,
    };
    Some(
        MapRange {
            range_start: start,
            range_end: end,
            offset: 0,
            dev_major: 0,
            dev_minor: 0,
            inode: 0,
            perms,
            pathname,
        },
    )
}

} // verus!

verus! {

pub proof fn lemma_bsd_line_record_wf(l: Seq<u8>)
    ensures
        bsd_line_record(l) matches Some(r) ==> r.wf(),
{
}

} // verus!
