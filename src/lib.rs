//! Virtual memory maps of a process, as one ordered list of records whatever
//! the host system.
//!
//! The records, the readers of the kernel's listings and the decisions of the
//! region walks are verified here; opening files and handles is left to the
//! caller.
use vstd::prelude::*;

pub mod map_range;
pub mod contain;
pub mod scan;
pub mod error;
pub mod text_maps;
pub mod bsd_line;
pub mod walk;
pub mod mach_regions;
pub mod windows_regions;

pub use map_range::{MapRange, Permissions};
pub use contain::maps_contain_addr;
pub use error::MapsError;
pub use text_maps::{parse_maps, Dialect};
pub use walk::{RegionReply, RegionWalk, WalkAction};

verus! {

/// A process identifier as the host's C library writes it.
pub type Pid = libc::pid_t;

} // verus!
