use proc_maps::mach_regions::{mach_query_failed, mach_region_reply, task_error, vm_permissions};
use proc_maps::windows_regions::{
    needs_module_name, open_process_error, page_permissions, windows_query_failed,
    windows_region_reply, MEM_FREE, MEM_IMAGE, MEM_MAPPED, MEM_PRIVATE,
};
use proc_maps::{maps_contain_addr, MapsError, Permissions, RegionReply, RegionWalk, WalkAction};

const RX: Permissions = Permissions { read: true, write: false, execute: true, shared: false };

fn mapped(start: usize, size: usize, name: Option<&[u8]>) -> RegionReply {
    RegionReply::Mapped { start, size, perms: RX, offset: 0, filename: name.map(|n| n.to_vec()) }
}

#[test]
fn walk_records_mapped_regions_in_order() {
    let mut w = RegionWalk::new();
    assert_eq!(w.first_query(), WalkAction::Query { address: 0, depth: 0 });
    assert_eq!(
        w.step(RegionReply::Unmapped { start: 0, size: 0x1000 }),
        WalkAction::Query { address: 0x1000, depth: 0 }
    );
    assert_eq!(w.step(mapped(0x1000, 0x1000, Some(b"/bin/helper"))), WalkAction::Query { address: 0x2000, depth: 0 });
    assert_eq!(w.step(mapped(0x4000, 0x2000, None)), WalkAction::Query { address: 0x6000, depth: 0 });
    assert_eq!(w.step(RegionReply::End), WalkAction::Finished);
    let records = w.into_records();
    assert_eq!(records.len(), 2);
    assert_eq!(records[0].start(), 0x1000);
    assert_eq!(records[0].size(), 0x1000);
    assert_eq!(records[0].filename().unwrap().as_slice(), b"/bin/helper");
    assert!(records[0].is_exec());
    assert_eq!(records[1].start(), 0x4000);
    assert_eq!(records[1].end(), 0x6000);
    assert_eq!(records[1].inode, 0);
    assert!(maps_contain_addr(0x5000, &records));
    assert!(!maps_contain_addr(0x3000, &records));
}

#[test]
fn walk_enters_nested_maps() {
    let mut w = RegionWalk::new();
    assert_eq!(
        w.step(RegionReply::Submap { start: 0x8000, size: 0x4000 }),
        WalkAction::Query { address: 0x8000, depth: 1 }
    );
    assert_eq!(w.step(mapped(0x8000, 0x1000, None)), WalkAction::Query { address: 0x9000, depth: 1 });
    assert_eq!(w.records.len(), 1);
}

#[test]
fn walk_rejects_regions_that_go_back_or_are_empty() {
    let mut w = RegionWalk::new();
    w.step(mapped(0x4000, 0x1000, None));
    assert_eq!(w.step(mapped(0x2000, 0x1000, None)), WalkAction::Failed(MapsError::MalformedData));
    assert_eq!(w.records.len(), 1);
    let mut w = RegionWalk::new();
    assert_eq!(w.step(mapped(0x4000, 0, None)), WalkAction::Failed(MapsError::MalformedData));
    let mut w = RegionWalk::new();
    assert_eq!(w.step(mapped(usize::MAX, 2, None)), WalkAction::Failed(MapsError::MalformedData));
    let mut w = RegionWalk::new();
    assert_eq!(w.step(mapped(0x1000, 0x1000, Some(b""))), WalkAction::Failed(MapsError::MalformedData));
}

#[test]
fn walk_passes_failures_on() {
    let mut w = RegionWalk::new();
    assert_eq!(
        w.step(RegionReply::Failed(MapsError::AccessDenied)),
        WalkAction::Failed(MapsError::AccessDenied)
    );
    assert!(w.done);
}

#[test]
fn windows_protections_translate() {
    assert_eq!(page_permissions(0x20, MEM_IMAGE), Permissions { read: true, write: false, execute: true, shared: true });
    assert_eq!(page_permissions(0x04, MEM_PRIVATE), Permissions { read: true, write: true, execute: false, shared: false });
    assert_eq!(page_permissions(0x01, MEM_PRIVATE), Permissions { read: false, write: false, execute: false, shared: false });
    assert_eq!(page_permissions(0x10, MEM_MAPPED), Permissions { read: false, write: false, execute: true, shared: true });
    assert_eq!(page_permissions(0x104, MEM_PRIVATE), Permissions { read: true, write: true, execute: false, shared: false });
    assert!(needs_module_name(MEM_IMAGE));
    assert!(!needs_module_name(MEM_PRIVATE));
}

#[test]
fn windows_regions_translate() {
    match windows_region_reply(0x1000, 0x2000, MEM_FREE, 0, 0, None) {
        RegionReply::Unmapped { start, size } => assert_eq!((start, size), (0x1000, 0x2000)),
        _ => panic!("a free region is skipped"),
    }
    match windows_region_reply(0x1000, 0x2000, 0x1000, 0x20, MEM_IMAGE, Some(b"C:\\a.exe".to_vec())) {
        RegionReply::Mapped { start, size, perms, offset, filename } => {
            assert_eq!((start, size, offset), (0x1000, 0x2000, 0));
            assert!(perms.execute && perms.read);
            assert_eq!(filename.unwrap(), b"C:\\a.exe".to_vec());
        }
        _ => panic!("a committed region is recorded"),
    }
    match windows_region_reply(0x1000, 0x2000, 0x1000, 0x04, MEM_PRIVATE, Some(b"x".to_vec())) {
        RegionReply::Mapped { filename, .. } => assert!(filename.is_none()),
        _ => panic!("a committed region is recorded"),
    }
    assert!(matches!(windows_query_failed(87), RegionReply::End));
    assert!(matches!(windows_query_failed(5), RegionReply::Failed(MapsError::AccessDenied)));
    assert!(matches!(windows_query_failed(6), RegionReply::Failed(MapsError::IoFailure)));
    assert_eq!(open_process_error(87), MapsError::NotFound);
    assert_eq!(open_process_error(5), MapsError::AccessDenied);
    assert_eq!(open_process_error(1), MapsError::IoFailure);
}

#[test]
fn mach_regions_translate() {
    assert_eq!(vm_permissions(5, 2), Permissions { read: true, write: false, execute: true, shared: false });
    assert_eq!(vm_permissions(3, 4), Permissions { read: true, write: true, execute: false, shared: true });
    assert_eq!(vm_permissions(0, 7), Permissions { read: false, write: false, execute: false, shared: true });
    match mach_region_reply(0x1000, 0x4000, true, 0, 0, 0, None) {
        RegionReply::Submap { start, size } => assert_eq!((start, size), (0x1000, 0x4000)),
        _ => panic!("a nested map is entered"),
    }
    match mach_region_reply(0x1000, 0x4000, false, 1, 1, 0x200, Some(b"/usr/lib/dyld".to_vec())) {
        RegionReply::Mapped { start, size, perms, offset, filename } => {
            assert_eq!((start, size, offset), (0x1000, 0x4000, 0x200));
            assert!(perms.read && !perms.write);
            assert_eq!(filename.unwrap(), b"/usr/lib/dyld".to_vec());
        }
        _ => panic!("a region is recorded"),
    }
    match mach_region_reply(0x1000, 0x4000, false, 1, 1, 0, Some(Vec::new())) {
        RegionReply::Mapped { filename, .. } => assert!(filename.is_none()),
        _ => panic!("a region is recorded"),
    }
    assert!(matches!(mach_query_failed(1), RegionReply::End));
    assert!(matches!(mach_query_failed(2), RegionReply::Failed(MapsError::AccessDenied)));
    assert!(matches!(mach_query_failed(5), RegionReply::Failed(MapsError::IoFailure)));
    assert_eq!(task_error(4), MapsError::NotFound);
    assert_eq!(task_error(5), MapsError::AccessDenied);
}
