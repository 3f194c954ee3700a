//! The kernel's text listing of a process's mappings, one region per line:
//! `start-end perms offset major:minor inode [path]`.
use vstd::prelude::*;
use vstd::slice::{slice_subrange, slice_to_vec};
use crate::error::MapsError;
use crate::map_range::{MapRange, MapRangeView, Permissions, views, ordered};
use crate::bsd_line::{bsd_line_record, parse_bsd_line, lemma_bsd_line_record_wf};
use crate::scan::{skip_blanks, field_end, number_of, skip_blanks_from, field_end_from, parse_number, lemma_skip_blanks_bounds, lemma_field_end_bounds};

verus! {

/// The two layouts of the listing.
#[derive(Clone, Copy, Debug, PartialEq, Eq, Structural)]
pub enum Dialect {
    /// Linux and Android: `start-end perms offset major:minor inode [path]`.
    Linux,
    /// FreeBSD: see [`crate::bsd_line`].
    FreeBsd,
}

/// The record that line `l` describes in dialect `d`.
pub open spec fn dialect_record(l: Seq<u8>, d: Dialect) -> Option<MapRangeView> {
    match d {
        Dialect::Linux => line_record(l),
        Dialect::FreeBsd => bsd_line_record(l),
    }
}

pub const BLANK: u8 = 0x20;
pub const DASH: u8 = 0x2d;
pub const COLON: u8 = 0x3a;
pub const NEWLINE: u8 = 0x0a;

/// The flags of a four-byte field such as `r-xp`: each of the first three is
/// its letter or `-`, the last `p` (private) or `s` (shared).
pub open spec fn perms_of(s: Seq<u8>) -> Option<Permissions> {
    if s.len() == 4 && (s[0] == 0x72u8 || s[0] == DASH) && (s[1] == 0x77u8 || s[1] == DASH) && (
    s[2] == 0x78u8 || s[2] == DASH) && (s[3] == 0x70u8 || s[3] == 0x73u8) {
        Some(
            Permissions {
                read: s[0] == 0x72u8,
                write: s[1] == 0x77u8,
                execute: s[2] == 0x78u8,
                shared: s[3] == 0x73u8,
            },
        )
    } else {
        None
    }
}

/// The record that line `l` describes, or `None` where it does not follow the
/// grammar, a number does not fit a word, or the range is empty.
pub open spec fn line_record(l: Seq<u8>) -> Option<MapRangeView> {
    let at0 = skip_blanks(l, 0);
    let e0 = field_end(l, at0, DASH);
    let at1 = e0 + 1;
    let e1 = field_end(l, at1, BLANK);
    let at2 = skip_blanks(l, e1);
    let e2 = field_end(l, at2, BLANK);
    let at3 = skip_blanks(l, e2);
    let e3 = field_end(l, at3, BLANK);
    let at4 = skip_blanks(l, e3);
    let e4 = field_end(l, at4, COLON);
    let at5 = e4 + 1;
    let e5 = field_end(l, at5, BLANK);
    let at6 = skip_blanks(l, e5);
    let e6 = field_end(l, at6, BLANK);
    let at7 = skip_blanks(l, e6);
    let start = number_of(l.subrange(at0, e0), 16);
    let end = number_of(l.subrange(at1, e1), 16);
    let perms = perms_of(l.subrange(at2, e2));
    let offset = number_of(l.subrange(at3, e3), 16);
    let major = number_of(l.subrange(at4, e4), 16);
    let minor = number_of(l.subrange(at5, e5), 16);
    let inode = number_of(l.subrange(at6, e6), 10);
    if e0 < l.len() && l[e0] == DASH && e4 < l.len() && l[e4] == COLON && start is Some
        && end is Some && perms is Some && offset is Some && major is Some && minor is Some
        && inode is Some && start->0 < end->0 {
        Some(
            MapRangeView {
                start: start->0 as nat,
                end: end->0 as nat,
                offset: offset->0 as nat,
                dev_major: major->0 as nat,
                dev_minor: minor->0 as nat,
                inode: inode->0 as nat,
                perms: perms->0,
                filename: if at7 < l.len() {
                    Some(l.subrange(at7, l.len() as int))
                } else {
                    None
                },
            },
        )
    } else {
        None
    }
}

/// A line that holds only blanks describes nothing.
pub open spec fn is_blank_line(l: Seq<u8>) -> bool {
    skip_blanks(l, 0) >= l.len()
}

/// The first newline at or after `i`, or the length.
pub open spec fn line_end(s: Seq<u8>, i: int) -> int
    decreases s.len() - i,
{
    if 0 <= i < s.len() && s[i] != NEWLINE {
        line_end(s, i + 1)
    } else {
        i
    }
}

proof fn lemma_line_end_bounds(s: Seq<u8>, i: int)
    requires
        0 <= i <= s.len(),
    ensures
        i <= line_end(s, i) <= s.len(),
    decreases s.len() - i,
{
    if i < s.len() && s[i] != NEWLINE {
        lemma_line_end_bounds(s, i + 1);
    }
}

/// The records of the listing `s` from position `i` on, one for each line
/// that is not blank; `None` where some such line is malformed.
pub open spec fn listing_from(s: Seq<u8>, i: int, d: Dialect) -> Option<Seq<MapRangeView>>
    decreases s.len() - i,
    via listing_from_decreases
{
    if 0 <= i < s.len() {
        let e = line_end(s, i);
        let l = s.subrange(i, e);
        let rest = if e < s.len() {
            listing_from(s, e + 1, d)
        } else {
            Some(seq![])
        };
        if is_blank_line(l) {
            rest
        } else {
            match (dialect_record(l, d), rest) {
                (Some(r), Some(t)) => Some(seq![r] + t),
                _ => None,
            }
        }
    } else {
        Some(seq![])
    }
}

#[via_fn]
proof fn listing_from_decreases(s: Seq<u8>, i: int, d: Dialect) {
    if 0 <= i < s.len() {
        lemma_line_end_bounds(s, i);
    }
}

/// The records of a whole listing.
pub open spec fn listing(s: Seq<u8>, d: Dialect) -> Option<Seq<MapRangeView>> {
    listing_from(s, 0, d)
}

} // verus!

verus! {

pub open spec fn record_view(r: Option<MapRange>) -> Option<MapRangeView> {
    match r {
        Some(m) => Some(m@),
        None => None,
    }
}

/// `a` before each record of `o`, where `o` is some.
pub open spec fn prepend(a: Seq<MapRangeView>, o: Option<Seq<MapRangeView>>) -> Option<Seq<MapRangeView>> {
    match o {
        Some(t) => Some(a + t),
        None => None,
    }
}

/// What reading a whole listing gives: its records where each line parses and
/// they are ordered, and `MalformedData` otherwise.
pub open spec fn maps_of_listing(s: Seq<u8>, d: Dialect) -> Result<Seq<MapRangeView>, MapsError> {
    match listing(s, d) {
        Some(v) => if ordered(v) {
            Ok(v)
        } else {
            Err(MapsError::MalformedData)
        },
        None => Err(MapsError::MalformedData),
    }
}

pub open spec fn result_view(r: Result<Vec<MapRange>, MapsError>) -> Result<Seq<MapRangeView>, MapsError> {
    match r {
        Ok(v) => Ok(views(v@)),
        Err(e) => Err(e),
    }
}

pub proof fn lemma_line_record_wf(l: Seq<u8>)
    ensures
        line_record(l) matches Some(r) ==> r.wf(),
{
    if line_record(l) is Some {
        let at0 = skip_blanks(l, 0);
        lemma_skip_blanks_bounds(l, 0);
        let e0 = field_end(l, at0, DASH);
        lemma_field_end_bounds(l, at0, DASH);
        let e1 = field_end(l, e0 + 1, BLANK);
        lemma_field_end_bounds(l, e0 + 1, BLANK);
        let at2 = skip_blanks(l, e1);
        lemma_skip_blanks_bounds(l, e1);
        let e2 = field_end(l, at2, BLANK);
        lemma_field_end_bounds(l, at2, BLANK);
        let at3 = skip_blanks(l, e2);
        lemma_skip_blanks_bounds(l, e2);
        let e3 = field_end(l, at3, BLANK);
        lemma_field_end_bounds(l, at3, BLANK);
        let at4 = skip_blanks(l, e3);
        lemma_skip_blanks_bounds(l, e3);
        let e4 = field_end(l, at4, COLON);
        lemma_field_end_bounds(l, at4, COLON);
        let e5 = field_end(l, e4 + 1, BLANK);
        lemma_field_end_bounds(l, e4 + 1, BLANK);
        let at6 = skip_blanks(l, e5);
        lemma_skip_blanks_bounds(l, e5);
        let e6 = field_end(l, at6, BLANK);
        lemma_field_end_bounds(l, at6, BLANK);
        lemma_skip_blanks_bounds(l, e6);
    }
}

fn parse_perms(s: &[u8]) -> (r: Option<Permissions>)
    ensures
        r == perms_of(s@),
{
    if s.len() != 4 {
        return None;
    }
    let (a, b, c, d) = (s[0], s[1], s[2], s[3]);
    if (a == 0x72u8 || a == DASH) && (b == 0x77u8 || b == DASH) && (c == 0x78u8 || c == DASH) && (
    d == 0x70u8 || d == 0x73u8) {
        Some(Permissions { read: a == 0x72u8, write: b == 0x77u8, execute: c == 0x78u8, shared: d == 0x73u8 })
    } else {
        None
    }
}

/// Reads one line of the listing into a record; `None` where the line does
/// not describe one.
pub fn parse_line(l: &[u8]) -> (r: Option<MapRange>)
    ensures
        record_view(r) == line_record(l@),
{
    let n = l.len();
    let at0 = skip_blanks_from(l, 0);
    let e0 = field_end_from(l, at0, DASH);
    if e0 >= n || l[e0] != DASH {
        return None;
    }
    let at1 = e0 + 1;
    let e1 = field_end_from(l, at1, BLANK);
    let at2 = skip_blanks_from(l, e1);
    let e2 = field_end_from(l, at2, BLANK);
    let at3 = skip_blanks_from(l, e2);
    let e3 = field_end_from(l, at3, BLANK);
    let at4 = skip_blanks_from(l, e3);
    let e4 = field_end_from(l, at4, COLON);
    if e4 >= n || l[e4] != COLON {
        return None;
    }
    let at5 = e4 + 1;
    let e5 = field_end_from(l, at5, BLANK);
    let at6 = skip_blanks_from(l, e5);
    let e6 = field_end_from(l, at6, BLANK);
    let at7 = skip_blanks_from(l, e6);
    let start = match parse_number(slice_subrange(l, at0, e0), 16) {
        Some(v) => v,
        None => return None,
    };
    let end = match parse_number(slice_subrange(l, at1, e1), 16) {
        Some(v) => v,
        None => return None,
    };
    let perms = match parse_perms(slice_subrange(l, at2, e2)) {
        Some(v) => v,
        None => return None,
    };
    let offset = match parse_number(slice_subrange(l, at3, e3), 16) {
        Some(v) => v,
        None => return None,
    };
    let dev_major = match parse_number(slice_subrange(l, at4, e4), 16) {
        Some(v) => v,
        None => return None,
    };
    let dev_minor = match parse_number(slice_subrange(l, at5, e5), 16) {
        Some(v) => v,
        None => return None,
    };
    let inode = match parse_number(slice_subrange(l, at6, e6), 10) {
        Some(v) => v,
        None => return None,
    };
    if start >= end {
        return None;
    }
    let pathname = if at7 < n {
        Some(slice_to_vec(slice_subrange(l, at7, n)))
    } else {
        None
    };
    Some(MapRange { range_start: start, range_end: end, offset, dev_major, dev_minor, inode, perms, pathname })
}

fn line_end_from(s: &[u8], i: usize) -> (r: usize)
    requires
        i <= s@.len(),
    ensures
        r == line_end(s@, i as int),
        i <= r <= s@.len(),
{
    let mut j: usize = i;
    while j < s.len() && s[j] != NEWLINE
        invariant
            i <= j <= s@.len(),
            line_end(s@, j as int) == line_end(s@, i as int),
        decreases s@.len() - j,
    {
        j += 1;
    }
    j
}

/// Reads a whole listing. Each line that is not blank must describe a record,
/// and the records must come in order of address without overlap; else the
/// listing is `MalformedData` as a whole.
pub fn parse_maps(contents: &[u8], dialect: Dialect) -> (r: Result<Vec<MapRange>, MapsError>)
    ensures
        result_view(r) == maps_of_listing(contents@, dialect),
        r matches Ok(v) ==> ordered(views(v@)),
{
    let ghost s = contents@;
    let n = contents.len();
    let mut out: Vec<MapRange> = Vec::new();
    let mut i: usize = 0;
    while i < n
        invariant
            n == s.len(),
            s == contents@,
            i <= n,
            listing(s, dialect) == prepend(views(out@), listing_from(s, i as int, dialect)),
            ordered(views(out@)),
        decreases n - i,
    {
        let e = line_end_from(contents, i);
        let l = slice_subrange(contents, i, e);
        let next: usize = if e < n {
            e + 1
        } else {
            n
        };
        assert(listing_from(s, next as int, dialect) == if e < n {
            listing_from(s, e + 1, dialect)
        } else {
            Some(Seq::<MapRangeView>::empty())
        });
        if skip_blanks_from(l, 0) < l.len() {
            let parsed = match dialect {
                Dialect::Linux => parse_line(l),
                Dialect::FreeBsd => parse_bsd_line(l),
            };
            match parsed {
                None => {
                    return Err(MapsError::MalformedData);
                },
                Some(rec) => {
                    proof {
                        lemma_line_record_wf(l@);
                        lemma_bsd_line_record_wf(l@);
                    }
                    let k = out.len();
                    if k > 0 && out[k - 1].range_end > rec.range_start {
                        proof {
                            let a = views(out@);
                            if let Some(t) = listing_from(s, next as int, dialect) {
                                let full = a + (seq![rec@] + t);
                                assert(listing(s, dialect) == Some(full));
                                assert(full[k - 1] == a[k - 1]);
                                assert(full[k as int] == rec@);
                                assert(!(full[k - 1].end <= full[(k - 1) + 1].start));
                            }
                        }
                        return Err(MapsError::MalformedData);
                    }
                    let ghost before = views(out@);
                    out.push(rec);
                    proof {
                        assert(views(out@) =~= before.push(rec@));
                        if let Some(t) = listing_from(s, next as int, dialect) {
                            assert(before + (seq![rec@] + t) =~= views(out@) + t);
                        }
                        let a = views(out@);
                        assert forall|j: int| 0 <= j < a.len() implies #[trigger] a[j].wf() by {
                            if j < k {
                                assert(a[j] == before[j]);
                            }
                        }
                        assert forall|j: int| 0 <= j < a.len() - 1 implies #[trigger] a[j].end <= a[j + 1].start by {
                            if j + 1 < k {
                                assert(a[j] == before[j] && a[j + 1] == before[j + 1]);
                            }
                        }
                    }
                }
            }
        }
        i = next;
    }
    assert(views(out@) + seq![] =~= views(out@));
    Ok(out)
}

} // verus!
