use vstd::prelude::*;

use crate::entry::PathProbe;
use crate::error::{FsError, PathRole};

verus! {

/// Decides whether a rename of `old_path` may go ahead: only when the source exists.
pub fn plan_rename(old_path: &String, probe: PathProbe) -> (r: Result<(), FsError>)
    ensures
        !probe.exists ==> r is Err && r->Err_0.is_not_found(PathRole::Source, old_path@),
        probe.exists ==> r is Ok,
{
    if !probe.exists {
        Err(FsError::NotFound { role: PathRole::Source, path: old_path.clone() })
    } else {
        Ok(())
    }
}

/// Decides whether a delete of `file_path` may go ahead: only when it exists
/// and is not a directory.
pub fn plan_delete(file_path: &String, probe: PathProbe) -> (r: Result<(), FsError>)
    ensures
        !probe.exists ==> r is Err && r->Err_0.is_not_found(PathRole::File, file_path@),
        probe.exists && probe.is_dir ==> r is Err && r->Err_0.is_a_directory(file_path@),
        probe.exists && !probe.is_dir ==> r is Ok,
{
    if !probe.exists {
        Err(FsError::NotFound { role: PathRole::File, path: file_path.clone() })
    } else if probe.is_dir {
        Err(FsError::IsADirectory { path: file_path.clone() })
    } else {
        Ok(())
    }
}

} // verus!
