//! Replies of the Mach kernel's recursive region query, in the library's terms.
use vstd::prelude::*;
use crate::error::MapsError;
use crate::map_range::Permissions;
use crate::walk::RegionReply;

verus! {

pub const VM_PROT_READ: i32 = 1;
pub const VM_PROT_WRITE: i32 = 2;
pub const VM_PROT_EXECUTE: i32 = 4;

pub const SM_SHARED: u8 = 4;
pub const SM_TRUESHARED: u8 = 5;
pub const SM_SHARED_ALIASED: u8 = 7;

pub const KERN_SUCCESS: i32 = 0;
pub const KERN_INVALID_ADDRESS: i32 = 1;
pub const KERN_PROTECTION_FAILURE: i32 = 2;
pub const KERN_INVALID_ARGUMENT: i32 = 4;
pub const KERN_FAILURE: i32 = 5;

/// The flags of a region with protection `prot` and sharing mode `share_mode`.
pub open spec fn vm_perms(prot: i32, share_mode: u8) -> Permissions {
    Permissions {
        read: prot & VM_PROT_READ != 0,
        write: prot & VM_PROT_WRITE != 0,
        execute: prot & VM_PROT_EXECUTE != 0,
        shared: share_mode == SM_SHARED || share_mode == SM_TRUESHARED || share_mode
            == SM_SHARED_ALIASED,
    }
}

pub fn vm_permissions(prot: i32, share_mode: u8) -> (r: Permissions)
    ensures
        r == vm_perms(prot, share_mode),
{
    Permissions {
        read: prot & VM_PROT_READ != 0,
        write: prot & VM_PROT_WRITE != 0,
        execute: prot & VM_PROT_EXECUTE != 0,
        shared: share_mode == SM_SHARED || share_mode == SM_TRUESHARED || share_mode
            == SM_SHARED_ALIASED,
    }
}

/// A region that the query found. A nested map is entered rather than
/// recorded; an offset past the word size is malformed. A region without a
/// known path carries no file name.
pub fn mach_region_reply(
    address: u64,
    size: u64,
    is_submap: bool,
    prot: i32,
    share_mode: u8,
    offset: u64,
    filename: Option<Vec<u8>>,
) -> (r: RegionReply)
    ensures
        (address > usize::MAX || size > usize::MAX || (!is_submap && offset > usize::MAX)) ==> r
            == RegionReply::Failed(MapsError::MalformedData),
        (address <= usize::MAX && size <= usize::MAX && is_submap) ==> r == (RegionReply::Submap {
            start: address as usize,
            size: size as usize,
        }),
        (address <= usize::MAX && size <= usize::MAX && !is_submap && offset <= usize::MAX) ==> r
            == (RegionReply::Mapped {
            start: address as usize,
            size: size as usize,
            perms: vm_perms(prot, share_mode),
            offset: offset as usize,
            filename: match filename {
                Some(f) => if f@.len() > 0 {
                    Some(f)
                } else {
                    None
                },
                None => None,
            },
        }),
{
    if address > usize::MAX as u64 || size > usize::MAX as u64 {
        return RegionReply::Failed(MapsError::MalformedData);
    }
    if is_submap {
        return RegionReply::Submap { start: address as usize, size: size as usize };
    }
    if offset > usize::MAX as u64 {
        return RegionReply::Failed(MapsError::MalformedData);
    }
    let filename = match filename {
        Some(f) => if f.len() > 0 {
            Some(f)
        } else {
            None
        },
        None => None,
    };
    RegionReply::Mapped {
        start: address as usize,
        size: size as usize,
        perms: vm_permissions(prot, share_mode),
        offset: offset as usize,
        filename,
    }
}

/// A failed region query: an address past the last region ends the walk.
pub fn mach_query_failed(code: i32) -> (r: RegionReply)
    ensures
        code == KERN_INVALID_ADDRESS ==> r == RegionReply::End,
        code == KERN_PROTECTION_FAILURE ==> r == RegionReply::Failed(MapsError::AccessDenied),
        code != KERN_INVALID_ADDRESS && code != KERN_PROTECTION_FAILURE ==> r
            == RegionReply::Failed(MapsError::IoFailure),
{
    if code == KERN_INVALID_ADDRESS {
        RegionReply::End
    } else if code == KERN_PROTECTION_FAILURE {
        RegionReply::Failed(MapsError::AccessDenied)
    } else {
        RegionReply::Failed(MapsError::IoFailure)
    }
}

/// Why no task port could be had for a process: an argument that names no
/// task is a missing process; any other refusal is one of privilege.
pub fn task_error(code: i32) -> (r: MapsError)
    requires
        code != KERN_SUCCESS,
    ensures
        code == KERN_INVALID_ARGUMENT ==> r == MapsError::NotFound,
        code != KERN_INVALID_ARGUMENT ==> r == MapsError::AccessDenied,
{
    if code == KERN_INVALID_ARGUMENT {
        MapsError::NotFound
    } else {
        MapsError::AccessDenied
    }
}

} // verus!
