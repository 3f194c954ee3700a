use proc_maps::text_maps::parse_line;
use proc_maps::bsd_line::parse_bsd_line;
use proc_maps::scan::parse_number;
use proc_maps::error::open_error;
use proc_maps::{maps_contain_addr, parse_maps, Dialect, MapsError};

const LINUX: &str = "00400000-00452000 r-xp 00000000 08:02 173521      /usr/bin/dbus-daemon\n\
00651000-00652000 r--p 00051000 08:02 173521      /usr/bin/dbus-daemon\n\
00652000-00655000 rw-p 00052000 08:02 173521      /usr/bin/dbus-daemon\n\
00e03000-00e24000 rw-p 00000000 00:00 0           [heap]\n\
35b1800000-35b1820000 r-xp 00000000 08:02 135522  /usr/lib64/ld 2.15.so\n\
7fff4ae2e000-7fff4ae4f000 rw-s 00000000 00:00 0\n";

#[test]
fn parses_linux_listing() {
    let maps = parse_maps(LINUX.as_bytes(), Dialect::Linux).unwrap();
    assert_eq!(maps.len(), 6);
    assert_eq!(maps[0].start(), 0x400000);
    assert_eq!(maps[0].size(), 0x52000);
    assert_eq!(maps[0].end(), 0x452000);
    assert!(maps[0].is_read() && maps[0].is_exec() && !maps[0].is_write() && !maps[0].is_shared());
    assert_eq!(maps[0].filename().unwrap().as_slice(), b"/usr/bin/dbus-daemon");
    assert_eq!(maps[1].offset, 0x51000);
    assert_eq!(maps[1].dev_major, 8);
    assert_eq!(maps[1].dev_minor, 2);
    assert_eq!(maps[1].inode, 173521);
    assert_eq!(maps[3].filename().unwrap().as_slice(), b"[heap]");
    assert_eq!(maps[4].start(), 0x35b1800000);
    assert_eq!(maps[4].filename().unwrap().as_slice(), b"/usr/lib64/ld 2.15.so");
    assert!(maps[5].filename().is_none());
    assert!(maps[5].is_shared());
    assert!(maps[2].is_write());
}

#[test]
fn empty_listing_is_empty() {
    assert_eq!(parse_maps(b"", Dialect::Linux).unwrap().len(), 0);
    assert_eq!(parse_maps(b"\n  \n", Dialect::Linux).unwrap().len(), 0);
    assert_eq!(parse_maps(b"", Dialect::FreeBsd).unwrap().len(), 0);
}

#[test]
fn malformed_line_fails_the_listing() {
    let text = b"00400000-00452000 r-xp 00000000 08:02 173521 /bin/a\n00452000-00460000 r-xp 0000zz00 08:02 1\n";
    assert_eq!(parse_maps(text, Dialect::Linux).unwrap_err(), MapsError::MalformedData);
    assert!(parse_line(b"00400000 r-xp 00000000 08:02 1").is_none());
    assert!(parse_line(b"00400000-00452000 r-xq 00000000 08:02 1").is_none());
    assert!(parse_line(b"00400000-00452000 r-xp 00000000 0802 1").is_none());
    assert!(parse_line(b"00400000-00452000 r-xp 00000000 08:02").is_none());
    assert!(parse_line(b"00400000-00452000 r-xp 00000000 08:02 12a").is_none());
}

#[test]
fn empty_or_backward_range_is_malformed() {
    assert!(parse_line(b"00452000-00452000 r-xp 00000000 08:02 1").is_none());
    assert!(parse_line(b"00452000-00400000 r-xp 00000000 08:02 1").is_none());
}

#[test]
fn overlapping_records_are_malformed() {
    let text = b"1000-3000 r--p 0 00:00 0\n2000-4000 r--p 0 00:00 0\n";
    assert_eq!(parse_maps(text, Dialect::Linux).unwrap_err(), MapsError::MalformedData);
    let unsorted = b"5000-6000 r--p 0 00:00 0\n1000-2000 r--p 0 00:00 0\n";
    assert_eq!(parse_maps(unsorted, Dialect::Linux).unwrap_err(), MapsError::MalformedData);
    let adjacent = b"1000-2000 r--p 0 00:00 0\n2000-3000 r--p 0 00:00 0\n";
    assert_eq!(parse_maps(adjacent, Dialect::Linux).unwrap().len(), 2);
}

#[test]
fn numbers_too_large_are_malformed() {
    assert_eq!(parse_number(b"ffffffffffffffff", 16), Some(usize::MAX));
    assert_eq!(parse_number(b"10000000000000000", 16), None);
    assert_eq!(parse_number(b"18446744073709551615", 10), Some(usize::MAX));
    assert_eq!(parse_number(b"18446744073709551616", 10), None);
    assert_eq!(parse_number(b"", 10), None);
    assert_eq!(parse_number(b"1A", 16), Some(26));
    assert_eq!(parse_number(b"1A", 10), None);
    assert_eq!(parse_number(b"0042", 10), Some(42));
}

#[test]
fn parses_freebsd_listing() {
    let text = b"0x400000 0x401000 1 0 0xfffff80003b3e000 r-x 1 0 0x1000 COW NC vnode /bin/cat NCH -1\n\
0x800000 0x820000 4 4 0xfffff80003b3f000 rw- 1 0 0x3000 NCOW NNC default - CH 1001\n";
    let maps = parse_maps(text, Dialect::FreeBsd).unwrap();
    assert_eq!(maps.len(), 2);
    assert_eq!(maps[0].start(), 0x400000);
    assert_eq!(maps[0].size(), 0x1000);
    assert!(maps[0].is_exec() && maps[0].is_read() && !maps[0].is_write() && !maps[0].is_shared());
    assert_eq!(maps[0].filename().unwrap().as_slice(), b"/bin/cat");
    assert!(maps[1].filename().is_none());
    assert!(maps[1].is_shared() && maps[1].is_write());
    assert!(parse_bsd_line(b"0x400000 0x401000 1 0 0x0 r-x 1 0 0x1000 XCOW NC vnode /bin/cat").is_none());
    assert!(parse_bsd_line(b"400000 0x401000 1 0 0x0 r-x 1 0 0x1000 COW NC vnode /bin/cat").is_none());
    assert!(parse_bsd_line(b"0x400000 0x401000 1 0 0x0 r-x 1 0 0x1000 COW NC vnode").is_none());
}

#[test]
fn containment_agrees_with_records() {
    let text = b"1000-2000 r--p 0 00:00 0\n2000-3000 r--p 0 00:00 0\n5000-6000 r--p 0 00:00 0\n";
    let maps = parse_maps(text, Dialect::Linux).unwrap();
    for m in &maps {
        assert!(maps_contain_addr(m.start(), &maps));
    }
    assert!(maps_contain_addr(0x2000, &maps));
    assert!(!maps_contain_addr(0x3000, &maps));
    assert!(!maps_contain_addr(0x6000, &maps));
    assert!(maps_contain_addr(0x5fff, &maps));
    assert!(!maps_contain_addr(0xfff, &maps));
    assert!(!maps_contain_addr(0x1000, &[]));
}

#[test]
fn open_errors_are_classified() {
    assert_eq!(open_error(2), MapsError::NotFound);
    assert_eq!(open_error(3), MapsError::NotFound);
    assert_eq!(open_error(13), MapsError::AccessDenied);
    assert_eq!(open_error(1), MapsError::AccessDenied);
    assert_eq!(open_error(5), MapsError::IoFailure);
}
