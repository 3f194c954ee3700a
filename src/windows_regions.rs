//! Replies of the Windows region query, in the library's terms.
use vstd::prelude::*;
use crate::error::MapsError;
use crate::map_range::Permissions;
use crate::walk::RegionReply;

verus! {

pub const PAGE_READONLY: u32 = 0x02;
pub const PAGE_READWRITE: u32 = 0x04;
pub const PAGE_WRITECOPY: u32 = 0x08;
pub const PAGE_EXECUTE: u32 = 0x10;
pub const PAGE_EXECUTE_READ: u32 = 0x20;
pub const PAGE_EXECUTE_READWRITE: u32 = 0x40;
pub const PAGE_EXECUTE_WRITECOPY: u32 = 0x80;

pub const MEM_FREE: u32 = 0x10000;
pub const MEM_PRIVATE: u32 = 0x20000;
pub const MEM_MAPPED: u32 = 0x40000;
pub const MEM_IMAGE: u32 = 0x1000000;

pub const ERROR_ACCESS_DENIED: u32 = 5;
pub const ERROR_INVALID_PARAMETER: u32 = 87;

/// Page protections that allow reading, writing and executing.
pub const READ_MASK: u32 = 0xee;
pub const WRITE_MASK: u32 = 0xcc;
pub const EXECUTE_MASK: u32 = 0xf0;

/// The flags of a region with page protection `protect` and type `kind`:
/// images and mapped views are shared sections, the rest private.
pub open spec fn page_perms(protect: u32, kind: u32) -> Permissions {
    Permissions {
        read: protect & READ_MASK != 0,
        write: protect & WRITE_MASK != 0,
        execute: protect & EXECUTE_MASK != 0,
        shared: kind == MEM_IMAGE || kind == MEM_MAPPED,
    }
}

pub fn page_permissions(protect: u32, kind: u32) -> (r: Permissions)
    ensures
        r == page_perms(protect, kind),
{
    Permissions {
        read: protect & READ_MASK != 0,
        write: protect & WRITE_MASK != 0,
        execute: protect & EXECUTE_MASK != 0,
        shared: kind == MEM_IMAGE || kind == MEM_MAPPED,
    }
}

/// Only a region that holds an executable image has a module path to look up.
pub fn needs_module_name(kind: u32) -> (r: bool)
    ensures
        r == (kind == MEM_IMAGE),
{
    kind == MEM_IMAGE
}

/// A region that the query described: a free one is skipped; a module path is
/// kept for an image and only when it is nonempty.
pub fn windows_region_reply(
    base: usize,
    size: usize,
    state: u32,
    protect: u32,
    kind: u32,
    filename: Option<Vec<u8>>,
) -> (r: RegionReply)
    ensures
        state == MEM_FREE ==> r == (RegionReply::Unmapped { start: base, size }),
        state != MEM_FREE ==> r == (RegionReply::Mapped {
            start: base,
            size,
            perms: page_perms(protect, kind),
            offset: 0,
            filename: match filename {
                Some(f) => if kind == MEM_IMAGE && f@.len() > 0 {
                    Some(f)
                } else {
                    None
                },
                None => None,
            },
        }),
{
    if state == MEM_FREE {
        return RegionReply::Unmapped { start: base, size };
    }
    let filename = match filename {
        Some(f) => if kind == MEM_IMAGE && f.len() > 0 {
            Some(f)
        } else {
            None
        },
        None => None,
    };
    RegionReply::Mapped { start: base, size, perms: page_permissions(protect, kind), offset: 0, filename }
}

/// A failed region query: an address past the address space ends the walk.
pub fn windows_query_failed(code: u32) -> (r: RegionReply)
    ensures
        code == ERROR_INVALID_PARAMETER ==> r == RegionReply::End,
        code == ERROR_ACCESS_DENIED ==> r == RegionReply::Failed(MapsError::AccessDenied),
        code != ERROR_INVALID_PARAMETER && code != ERROR_ACCESS_DENIED ==> r
            == RegionReply::Failed(MapsError::IoFailure),
{
    if code == ERROR_INVALID_PARAMETER {
        RegionReply::End
    } else if code == ERROR_ACCESS_DENIED {
        RegionReply::Failed(MapsError::AccessDenied)
    } else {
        RegionReply::Failed(MapsError::IoFailure)
    }
}

/// Why a process could not be opened: a parameter that names no process is
/// a missing process.
pub fn open_process_error(code: u32) -> (r: MapsError)
    ensures
        code == ERROR_INVALID_PARAMETER ==> r == MapsError::NotFound,
        code == ERROR_ACCESS_DENIED ==> r == MapsError::AccessDenied,
        code != ERROR_INVALID_PARAMETER && code != ERROR_ACCESS_DENIED ==> r
            == MapsError::IoFailure,
{
    if code == ERROR_INVALID_PARAMETER {
        MapsError::NotFound
    } else if code == ERROR_ACCESS_DENIED {
        MapsError::AccessDenied
    } else {
        MapsError::IoFailure
    }
}

} // verus!
