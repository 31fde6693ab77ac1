//! Cgroup v2 manager. Each room owns one leaf directory under a fixed
//! parent; membership is written into `cgroup.procs`, teardown goes
//! through the optional `cgroup.kill` pseudofile and a retried removal.
//! Only the room lifecycle calls these functions; they manipulate
//! directory entries and the two well-known pseudofiles and never read
//! process state.

use vstd::prelude::*;

use crate::errs::Bay0Error;
use crate::paths::cgroup_kill_path;
use crate::paths::cgroup_path;
use crate::paths::cgroup_procs_path;
use crate::pidtext::format_pid;
use crate::sys::fd_close;
use crate::sys::fd_write_all;
use crate::sys::fs_mkdir;
use crate::sys::fs_open;
use crate::sys::fs_rmdir;
use crate::sys::fs_stat_mode;
use crate::sys::sys_sleep_ms;
use crate::sys::MkdirOutcome;
use crate::sys::OpenKind;
use crate::sys::RemoveOutcome;
use crate::sys::StatOutcome;

verus! {

/// Ensures the parent cgroup directory exists. Idempotent: an already
/// existing parent is success.
pub fn init_cgroup_root() -> (r: Result<(), Bay0Error>)
    ensures
        r matches Err(e) ==> e is CgroupFailure,
{
    match fs_mkdir("/sys/fs/cgroup/anchor", 0o755) {
        MkdirOutcome::Created => Ok(()),
        MkdirOutcome::AlreadyExists => Ok(()),
        MkdirOutcome::Failed(e) => Err(
            Bay0Error::CgroupFailure { cgroup: "anchor".to_owned(), errno: e },
        ),
    }
}

/// Creates the room's cgroup leaf. An existing directory is reused.
pub fn create_cgroup(id: &str) -> (r: Result<(), Bay0Error>)
    ensures
        r matches Err(e) ==> e matches Bay0Error::CgroupFailure { cgroup, .. } && cgroup@ == id@,
{
    let path = cgroup_path(id);
    match fs_mkdir(path.as_str(), 0o755) {
        MkdirOutcome::Created => Ok(()),
        MkdirOutcome::AlreadyExists => Ok(()),
        MkdirOutcome::Failed(e) => Err(
            Bay0Error::CgroupFailure { cgroup: id.to_owned(), errno: e },
        ),
    }
}

/// Writes the pid into the room's `cgroup.procs`, making the fresh child
/// a member of the room's cgroup.
pub fn move_to_cgroup(id: &str, pid: i32) -> (r: Result<(), Bay0Error>)
    requires
        0 <= pid,
    ensures
        r matches Err(e) ==> e matches Bay0Error::CgroupFailure { cgroup, .. } && cgroup@ == id@,
{
    let path = cgroup_procs_path(id);
    let fd = match fs_open(path.as_str(), OpenKind::WriteTrunc(0o644)) {
        Ok(fd) => fd,
        Err(e) => {
            return Err(Bay0Error::CgroupFailure { cgroup: id.to_owned(), errno: e });
        },
    };
    let text = format_pid(pid);
    let res = fd_write_all(fd, text.as_slice());
    fd_close(fd);
    match res {
        Ok(()) => Ok(()),
        Err(e) => Err(Bay0Error::CgroupFailure { cgroup: id.to_owned(), errno: e }),
    }
}

/// Best-effort kill of everything left in the room's cgroup: if the
/// kernel offers `cgroup.kill`, write `1` into it; where the pseudofile
/// is absent this is a no-op and never an error.
pub fn kill_cgroup_if_supported(id: &str) -> (r: Result<(), Bay0Error>)
    ensures
        r matches Err(e) ==> e matches Bay0Error::CgroupFailure { cgroup, .. } && cgroup@ == id@,
{
    let path = cgroup_kill_path(id);
    match fs_stat_mode(path.as_str()) {
        StatOutcome::Mode(_) => {
            let fd = match fs_open(path.as_str(), OpenKind::WriteTrunc(0o644)) {
                Ok(fd) => fd,
                Err(e) => {
                    return Err(Bay0Error::CgroupFailure { cgroup: id.to_owned(), errno: e });
                },
            };
            let mut one: Vec<u8> = Vec::new();
            one.push(49);  // ASCII '1'
            let res = fd_write_all(fd, one.as_slice());
            fd_close(fd);
            match res {
                Ok(()) => Ok(()),
                Err(e) => Err(Bay0Error::CgroupFailure { cgroup: id.to_owned(), errno: e }),
            }
        },
        StatOutcome::Missing => Ok(()),
        StatOutcome::Failed(_) => Ok(()),
    }
}

/// Removes the room's cgroup directory. The kernel often refuses removal
/// briefly after the last member dies, so removal is retried every 50 ms
/// for a budget of about two seconds; failing the whole budget is an
/// error. A directory that is already gone is success: the goal state
/// holds, and kill must stay idempotent.
pub fn cleanup_cgroup(id: &str) -> (r: Result<(), Bay0Error>)
    ensures
        r matches Err(e) ==> e matches Bay0Error::CgroupFailure { cgroup, .. } && cgroup@ == id@,
{
    let path = cgroup_path(id);
    let mut last: i32 = 0;
    let mut tries: usize = 0;
    while tries < 40
        invariant
            0 <= tries <= 40,
        decreases 40 - tries,
    {
        match fs_rmdir(path.as_str()) {
            RemoveOutcome::Removed => {
                return Ok(());
            },
            RemoveOutcome::Missing => {
                return Ok(());
            },
            RemoveOutcome::Failed(e) => {
                last = e;
                sys_sleep_ms(50);
            },
        }
        tries += 1;
    }
    Err(Bay0Error::CgroupFailure { cgroup: id.to_owned(), errno: last })
}

} // verus!
