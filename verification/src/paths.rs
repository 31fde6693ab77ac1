//! Host-side filesystem layout: every room keeps its state under a fixed
//! runtime root, and owns one cgroup v2 leaf under a fixed cgroup parent.

use vstd::prelude::*;

verus! {

/// Directory that holds one subdirectory per room.
pub open spec fn spec_rooms_root() -> Seq<char> {
    "/run/rooms"@
}

/// Parent cgroup directory; each room owns one leaf below it.
pub open spec fn spec_cgroup_root() -> Seq<char> {
    "/sys/fs/cgroup/anchor"@
}

/// `/run/rooms/<id>`
pub open spec fn spec_room_dir_path(id: Seq<char>) -> Seq<char> {
    spec_rooms_root() + "/"@ + id
}

/// `/run/rooms/<id>/root`
pub open spec fn spec_room_root_path(id: Seq<char>) -> Seq<char> {
    spec_room_dir_path(id) + "/root"@
}

/// `/run/rooms/<id>/run`
pub open spec fn spec_room_runtime_path(id: Seq<char>) -> Seq<char> {
    spec_room_dir_path(id) + "/run"@
}

/// `/run/rooms/<id>/pid`
pub open spec fn spec_room_pid_file(id: Seq<char>) -> Seq<char> {
    spec_room_dir_path(id) + "/pid"@
}

/// `/sys/fs/cgroup/anchor/<id>`
pub open spec fn spec_cgroup_path(id: Seq<char>) -> Seq<char> {
    spec_cgroup_root() + "/"@ + id
}

/// `/sys/fs/cgroup/anchor/<id>/cgroup.procs`
pub open spec fn spec_cgroup_procs_path(id: Seq<char>) -> Seq<char> {
    spec_cgroup_path(id) + "/cgroup.procs"@
}

/// `/sys/fs/cgroup/anchor/<id>/cgroup.kill`
pub open spec fn spec_cgroup_kill_path(id: Seq<char>) -> Seq<char> {
    spec_cgroup_path(id) + "/cgroup.kill"@
}

/// Host directory owned by the room: `/run/rooms/<id>`.
pub fn room_dir_path(id: &str) -> (r: String)
    ensures
        r@ == spec_room_dir_path(id@),
{
    let mut s = "/run/rooms".to_owned();
    s.append("/");
    s.append(id);
    s
}

/// Mountpoint of the room image: `/run/rooms/<id>/root`.
pub fn room_root_path(id: &str) -> (r: String)
    ensures
        r@ == spec_room_root_path(id@),
{
    let mut s = room_dir_path(id);
    s.append("/root");
    s
}

/// Scratch directory placeholder: `/run/rooms/<id>/run`.
pub fn room_runtime_path(id: &str) -> (r: String)
    ensures
        r@ == spec_room_runtime_path(id@),
{
    let mut s = room_dir_path(id);
    s.append("/run");
    s
}

/// Textual pid of the room init: `/run/rooms/<id>/pid`.
pub fn room_pid_file(id: &str) -> (r: String)
    ensures
        r@ == spec_room_pid_file(id@),
{
    let mut s = room_dir_path(id);
    s.append("/pid");
    s
}

/// Cgroup leaf of the room: `/sys/fs/cgroup/anchor/<id>`.
pub fn cgroup_path(id: &str) -> (r: String)
    ensures
        r@ == spec_cgroup_path(id@),
{
    let mut s = "/sys/fs/cgroup/anchor".to_owned();
    s.append("/");
    s.append(id);
    s
}

/// Membership pseudofile of the room's cgroup.
pub fn cgroup_procs_path(id: &str) -> (r: String)
    ensures
        r@ == spec_cgroup_procs_path(id@),
{
    let mut s = cgroup_path(id);
    s.append("/cgroup.procs");
    s
}

/// Optional kill pseudofile of the room's cgroup.
pub fn cgroup_kill_path(id: &str) -> (r: String)
    ensures
        r@ == spec_cgroup_kill_path(id@),
{
    let mut s = cgroup_path(id);
    s.append("/cgroup.kill");
    s
}

} // verus!
