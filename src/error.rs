use vstd::prelude::*;

verus! {

/// Why an enumeration failed.
#[derive(Clone, Copy, Debug, PartialEq, Eq, Structural)]
pub enum MapsError {
    /// Not enough privilege to open or query the target.
    AccessDenied,
    /// No process has the identifier.
    NotFound,
    /// A read or query failed for another reason.
    IoFailure,
    /// What the system handed back does not follow its format.
    MalformedData,
}

} // verus!

verus! {

pub const EPERM: i32 = 1;
pub const ENOENT: i32 = 2;
pub const ESRCH: i32 = 3;
pub const EACCES: i32 = 13;

/// Why the listing of a process could not be opened, from the system's error
/// number: no such file or process means the process does not exist, a
/// refused permission means too little privilege.
pub fn open_error(errno: i32) -> (r: MapsError)
    ensures
        (errno == ENOENT || errno == ESRCH) ==> r == MapsError::NotFound,
        (errno == EACCES || errno == EPERM) ==> r == MapsError::AccessDenied,
        !(errno == ENOENT || errno == ESRCH || errno == EACCES || errno == EPERM) ==> r
            == MapsError::IoFailure,
{
    if errno == ENOENT || errno == ESRCH {
        MapsError::NotFound
    } else if errno == EACCES || errno == EPERM {
        MapsError::AccessDenied
    } else {
        MapsError::IoFailure
    }
}

} // verus!
