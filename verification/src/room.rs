//! Room lifecycle. A room is created by spawn (host-side directories,
//! cgroup, fork with fresh namespaces, cgroup attach, pid file) and
//! destroyed by kill (signal, bounded wait, cgroup kill, unconditional
//! cleanup). Kill is idempotent: it succeeds whether or not the room
//! still exists, because the supervisor replays user intent.
//!
//! The fork itself and the child side of it cannot run under the
//! verifier; the child's init sequence is therefore produced here as a
//! verified plan of steps (`child_init_plan`) whose order the proofs
//! below pin down, and the surrounding binary executes the steps one by
//! one, aborting on the first failure as the plan demands.

use vstd::prelude::*;

use crate::errs::Bay0Error;
use crate::ident::check_room_id;
use crate::ident::valid_room_id;
use crate::mounts::unmount_plan_of_bytes;
use crate::paths::room_dir_path;
use crate::paths::room_pid_file;
use crate::paths::room_root_path;
use crate::paths::spec_room_root_path;
use crate::paths::room_runtime_path;
use crate::pidtext::parse_pid;
use crate::sys::fd_close;
use crate::sys::fd_read_chunk;
use crate::sys::fd_write_all;
use crate::sys::fs_mkdir;
use crate::sys::fs_open;
use crate::sys::fs_rmdir;
use crate::sys::fs_unlink;
use crate::sys::mnt_detach;
use crate::sys::sys_kill;
use crate::sys::sys_sleep_ms;
use crate::sys::sys_waitpid_nohang;
use crate::sys::MkdirOutcome;
use crate::sys::OpenKind;
use crate::sys::ReadOutcome;
use crate::sys::RoomSignal;
use crate::sys::WaitOutcome;
use crate::table::RoomHandle;
use crate::table::RoomTable;
use crate::vault::check_vault_target;
use crate::vault::valid_vault_target;
use crate::vault::VaultMount;
use crate::vault::VaultView;

verus! {

/// Immutable input to a spawn.
pub struct RoomConfig {
    /// Room id; a single whitespace-free token without `/` or `..`.
    pub id: String,
    /// Path of the SquashFS image the room boots from.
    pub image_path: String,
    /// Vault bind-mounts requested by policy; empty when no policy was
    /// given.
    pub vaults: Vec<VaultMount>,
}

/// Ghost image of a spawn input.
pub struct RoomConfigView {
    pub id: Seq<char>,
    pub image_path: Seq<char>,
    pub vaults: Seq<VaultView>,
}

impl View for RoomConfig {
    type V = RoomConfigView;

    open spec fn view(&self) -> RoomConfigView {
        RoomConfigView {
            id: self.id@,
            image_path: self.image_path@,
            vaults: self.vaults@.map_values(|v: VaultMount| v@),
        }
    }
}

impl Clone for RoomConfig {
    fn clone(&self) -> (r: Self)
        ensures
            r@ == self@,
    {
        let mut vaults: Vec<VaultMount> = Vec::new();
        let n = self.vaults.len();
        let mut i: usize = 0;
        while i < n
            invariant
                0 <= i <= n,
                n == self.vaults@.len(),
                vaults@.map_values(|v: VaultMount| v@) == self.vaults@.take(i as int).map_values(
                    |v: VaultMount| v@,
                ),
            decreases n - i,
        {
            let ghost before = vaults@.map_values(|v: VaultMount| v@);
            let v = self.vaults[i].clone();
            proof {
                assert(vaults@.push(v).map_values(|w: VaultMount| w@) =~= before.push(
                    self.vaults@[i as int]@,
                ));
                assert(self.vaults@.take(i as int + 1).map_values(|w: VaultMount| w@)
                    =~= self.vaults@.take(i as int).map_values(|w: VaultMount| w@).push(
                    self.vaults@[i as int]@,
                ));
            }
            vaults.push(v);
            i += 1;
        }
        proof {
            assert(self.vaults@.take(n as int) =~= self.vaults@);
        }
        RoomConfig { id: self.id.clone(), image_path: self.image_path.clone(), vaults }
    }
}

/// Reads a small file whole (a pid file, `/proc/mounts`), capped at 256
/// chunks of 4 KiB; a file larger than that is reported as errno 0,
/// meaning the library gave up.
fn read_small_file(path: &str) -> (r: Result<Vec<u8>, i32>) {
    let fd = match fs_open(path, OpenKind::Read) {
        Ok(fd) => fd,
        Err(e) => {
            return Err(e);
        },
    };
    let mut data: Vec<u8> = Vec::new();
    let mut chunks: usize = 0;
    while chunks < 256
        invariant
            0 <= chunks <= 256,
        decreases 256 - chunks,
    {
        match fd_read_chunk(fd) {
            ReadOutcome::Data(mut v) => {
                data.append(&mut v);
            },
            ReadOutcome::Eof => {
                fd_close(fd);
                return Ok(data);
            },
            ReadOutcome::WouldBlock => {
                fd_close(fd);
                return Err(0);
            },
            ReadOutcome::Failed(e) => {
                fd_close(fd);
                return Err(e);
            },
        }
        chunks += 1;
    }
    fd_close(fd);
    Err(0)
}

/// Writes the room init's pid into `/run/rooms/<id>/pid` as decimal text,
/// for post-hoc kill if the in-memory handle is lost.
pub fn write_pid_file(id: &str, pid: i32) -> (r: Result<(), Bay0Error>)
    requires
        0 <= pid,
    ensures
        r matches Err(e) ==> e is IoFailure,
{
    let path = room_pid_file(id);
    let fd = match fs_open(path.as_str(), OpenKind::WriteTrunc(0o644)) {
        Ok(fd) => fd,
        Err(e) => {
            return Err(Bay0Error::IoFailure { operation: "write pidfile", errno: e });
        },
    };
    let text = crate::pidtext::format_pid(pid);
    let res = fd_write_all(fd, text.as_slice());
    fd_close(fd);
    match res {
        Ok(()) => Ok(()),
        Err(e) => Err(Bay0Error::IoFailure { operation: "write pidfile", errno: e }),
    }
}

/// Reads the room init's pid back from the pid file. Returns the stored
/// value exactly when the file holds a decimal pid that fits an `i32`.
pub fn read_pid_file(id: &str) -> (r: Result<i32, Bay0Error>)
    ensures
        r matches Ok(p) ==> 0 <= p,
        r matches Err(e) ==> (e is IoFailure || (e matches Bay0Error::RoomSpawnFailure {
            room,
            ..
        } && room@ == id@)),
{
    let path = room_pid_file(id);
    let raw = match read_small_file(path.as_str()) {
        Ok(v) => v,
        Err(e) => {
            return Err(Bay0Error::IoFailure { operation: "read pidfile", errno: e });
        },
    };
    match parse_pid(raw.as_slice()) {
        Some(p) => Ok(p),
        None => Err(
            Bay0Error::RoomSpawnFailure { room: id.to_owned(), reason: "invalid pidfile" },
        ),
    }
}

/// Creates the host-side directories of a room: its directory under the
/// runtime root, the image mountpoint `root/` and the scratch
/// placeholder `run/`. Existing directories are reused.
pub fn create_room_dirs(id: &str) -> (r: Result<(), Bay0Error>)
    ensures
        r matches Err(e) ==> e is IoFailure,
{
    match fs_mkdir("/run", 0o755) {
        MkdirOutcome::Failed(e) => {
            return Err(Bay0Error::IoFailure { operation: "create /run", errno: e });
        },
        _ => (),
    }
    match fs_mkdir("/run/rooms", 0o755) {
        MkdirOutcome::Failed(e) => {
            return Err(Bay0Error::IoFailure { operation: "create /run/rooms", errno: e });
        },
        _ => (),
    }
    let dir = room_dir_path(id);
    match fs_mkdir(dir.as_str(), 0o755) {
        MkdirOutcome::Failed(e) => {
            return Err(Bay0Error::IoFailure { operation: "create room dir", errno: e });
        },
        _ => (),
    }
    let root = room_root_path(id);
    match fs_mkdir(root.as_str(), 0o755) {
        MkdirOutcome::Failed(e) => {
            return Err(Bay0Error::IoFailure { operation: "create room root dir", errno: e });
        },
        _ => (),
    }
    let run = room_runtime_path(id);
    match fs_mkdir(run.as_str(), 0o755) {
        MkdirOutcome::Failed(e) => {
            return Err(Bay0Error::IoFailure { operation: "create room runtime dir", errno: e });
        },
        _ => (),
    }
    Ok(())
}

/// Removes the room's host-side directory tree, children first; each
/// step is best-effort.
fn remove_room_dirs(id: &str) {
    let root = room_root_path(id);
    let _ = fs_rmdir(root.as_str());
    let run = room_runtime_path(id);
    let _ = fs_rmdir(run.as_str());
    let pidf = room_pid_file(id);
    let _ = fs_unlink(pidf.as_str());
    let dir = room_dir_path(id);
    let _ = fs_rmdir(dir.as_str());
}

/// Detaches every mount under the room's root, deepest first, with lazy
/// semantics, so nothing under the room survives on the host side.
pub fn umount_room_recursive(id: &str) -> (r: Result<(), Bay0Error>)
    ensures
        r matches Err(e) ==> e is IoFailure,
{
    let root = room_root_path(id);
    let raw = match read_small_file("/proc/mounts") {
        Ok(v) => v,
        Err(e) => {
            return Err(Bay0Error::IoFailure { operation: "read /proc/mounts", errno: e });
        },
    };
    let plan = unmount_plan_of_bytes(raw.as_slice(), root.as_str());
    let n = plan.len();
    let mut i: usize = 0;
    while i < n
        invariant
            0 <= i <= n,
            n == plan@.len(),
        decreases n - i,
    {
        let _ = mnt_detach(plan[i].as_str());
        i += 1;
    }
    Ok(())
}

/// Polls the child with a non-blocking wait every 50 ms for a budget of
/// about two seconds, returning early once the child is observed dead
/// or there is no child to wait for.
fn wait_until_dead(pid: i32) {
    let mut tries: usize = 0;
    while tries < 40
        invariant
            0 <= tries <= 40,
        decreases 40 - tries,
    {
        match sys_waitpid_nohang(pid) {
            WaitOutcome::StillAlive => {
                sys_sleep_ms(50);
            },
            WaitOutcome::Exited(_, _) => {
                return ;
            },
            WaitOutcome::Signaled(_) => {
                return ;
            },
            WaitOutcome::NoChild => {
                return ;
            },
            WaitOutcome::Other => {
                sys_sleep_ms(50);
            },
            WaitOutcome::Failed(_) => {
                return ;
            },
        }
        tries += 1;
    }
}

/// Whether a process with this pid can still be signalled.
fn is_alive(pid: i32) -> (r: bool) {
    match sys_kill(pid, RoomSignal::Probe) {
        Ok(()) => true,
        Err(_) => false,
    }
}

/// Unconditional cleanup at the end of kill, in deterministic order:
/// unmount everything under the room (deepest first), remove the
/// directory tree, destroy the cgroup (with retry), remove the pid file.
/// Every sub-step is best-effort: leaving mounts, directories or cgroups
/// behind would make future spawns with the same id collide, so a
/// failure in one step never aborts the others, and cleanup as a whole
/// always reports success.
pub fn cleanup_room(id: &str) -> (r: Result<(), Bay0Error>)
    ensures
        r.is_ok(),
{
    let _ = umount_room_recursive(id);
    remove_room_dirs(id);
    let _ = crate::cgroup::cleanup_cgroup(id);
    let pidf = room_pid_file(id);
    let _ = fs_unlink(pidf.as_str());
    Ok(())
}

/// Kills a room and reclaims everything it owned. Idempotent: a missing
/// pid file, an already dead init or an already removed directory all
/// lead to the same reclaimed end state, and the call reports success
/// even if the room did not exist - an error on "already gone" would
/// make trivially correct callers race-sensitive.
///
/// Sequence: read the pid file (if it is gone, only cleanup remains);
/// SIGTERM and wait up to two seconds; if still alive, SIGKILL and wait
/// again; best-effort `cgroup.kill` for survivors; unconditional cleanup.
pub fn kill_room(id: &str) -> (r: Result<(), Bay0Error>)
    ensures
        r.is_ok(),
{
    let pid = match read_pid_file(id) {
        Ok(p) => p,
        Err(_) => {
            let _ = cleanup_room(id);
            return Ok(());
        },
    };
    if pid == 0 {
        // A stale pid file holding 0 must not reach kill(2): signalling
        // pid 0 would target the supervisor's own process group.
        let _ = cleanup_room(id);
        return Ok(());
    }
    let _ = sys_kill(pid, RoomSignal::Term);
    wait_until_dead(pid);
    if is_alive(pid) {
        let _ = sys_kill(pid, RoomSignal::Kill);
        wait_until_dead(pid);
    }
    let _ = crate::cgroup::kill_cgroup_if_supported(id);
    let _ = cleanup_room(id);
    Ok(())
}

/// Everything spawn checks before it touches the system: the id is
/// usable, the id is free in the table, and every vault target is valid.
/// Succeeds exactly on inputs that pass all three checks.
pub fn spawn_precheck(table: &RoomTable, config: &RoomConfig) -> (r: Result<(), Bay0Error>)
    requires
        table.wf(),
    ensures
        r.is_ok() <==> (valid_room_id(config.id@) && !table@.contains_key(config.id@) && (forall|
            i: int,
        |
            0 <= i < config.vaults@.len() ==> valid_vault_target(
                (#[trigger] config.vaults@[i]).target@,
            ))),
        r matches Err(e) ==> e matches Bay0Error::RoomSpawnFailure { room, .. } && room@
            == config.id@,
{
    if !check_room_id(config.id.as_str()) {
        return Err(
            Bay0Error::RoomSpawnFailure { room: config.id.clone(), reason: "invalid room id" },
        );
    }
    if table.contains(config.id.as_str()) {
        return Err(
            Bay0Error::RoomSpawnFailure { room: config.id.clone(), reason: "room already exists" },
        );
    }
    let n = config.vaults.len();
    let mut i: usize = 0;
    while i < n
        invariant
            0 <= i <= n,
            n == config.vaults@.len(),
            forall|j: int| 0 <= j < i ==> valid_vault_target(
                (#[trigger] config.vaults@[j]).target@,
            ),
        decreases n - i,
    {
        if !check_vault_target(config.vaults[i].target.as_str()) {
            return Err(
                Bay0Error::RoomSpawnFailure {
                    room: config.id.clone(),
                    reason: "invalid vault target",
                },
            );
        }
        i += 1;
    }
    Ok(())
}

/// Host-side preparation of a spawn, before the fork: validates the
/// inputs again (an invalid id must never name a directory), then
/// creates the room directories and the cgroup leaf.
pub fn prepare_room(config: &RoomConfig) -> (r: Result<(), Bay0Error>)
    ensures
        r.is_ok() ==> valid_room_id(config.id@) && (forall|i: int|
            0 <= i < config.vaults@.len() ==> valid_vault_target(
                (#[trigger] config.vaults@[i]).target@,
            )),
        !valid_room_id(config.id@) ==> (r matches Err(e) && e is RoomSpawnFailure),
{
    if !check_room_id(config.id.as_str()) {
        return Err(
            Bay0Error::RoomSpawnFailure { room: config.id.clone(), reason: "invalid room id" },
        );
    }
    let n = config.vaults.len();
    let mut i: usize = 0;
    while i < n
        invariant
            0 <= i <= n,
            n == config.vaults@.len(),
            forall|j: int| 0 <= j < i ==> valid_vault_target(
                (#[trigger] config.vaults@[j]).target@,
            ),
        decreases n - i,
    {
        if !check_vault_target(config.vaults[i].target.as_str()) {
            return Err(
                Bay0Error::RoomSpawnFailure {
                    room: config.id.clone(),
                    reason: "invalid vault target",
                },
            );
        }
        i += 1;
    }
    create_room_dirs(config.id.as_str())?;
    crate::cgroup::create_cgroup(config.id.as_str())?;
    Ok(())
}

/// Parent side of a spawn after a successful fork: attach the child to
/// the room's cgroup, then write the pid file, in that order. A failure
/// of either step must not leak the half-built room, so the room is
/// killed before the error propagates.
pub fn complete_spawn(id: &str, pid: i32) -> (r: Result<RoomHandle, Bay0Error>)
    requires
        0 < pid,
    ensures
        r matches Ok(h) ==> h.id@ == id@ && h.pid == pid,
{
    match crate::cgroup::move_to_cgroup(id, pid) {
        Ok(()) => (),
        Err(e) => {
            let _ = kill_room(id);
            return Err(e);
        },
    }
    match write_pid_file(id, pid) {
        Ok(()) => (),
        Err(e) => {
            let _ = kill_room(id);
            return Err(e);
        },
    }
    Ok(RoomHandle { id: id.to_owned(), pid })
}

/// One step of the child init sequence, run as pid 1 of the room's pid
/// namespace. The surrounding binary executes these in plan order and
/// aborts the child with a diagnostic and a non-zero exit on the first
/// failure.
pub enum InitStep {
    /// Arm parent-death delivery: the kernel SIGKILLs the child when the
    /// supervisor exits.
    SetParentDeathKill,
    /// Recursively mark every mount private under `/`, so nothing the
    /// child mounts propagates back to the host namespace.
    MakeMountsPrivate,
    /// Mount the SquashFS image read-only at the room's root path.
    MountImage { source: String, target: String },
    /// Create a directory if it does not exist yet.
    EnsureDir { path: String },
    /// Swap `/` for the image root, parking the old root at the dotfile
    /// subdirectory.
    PivotRoot { new_root: String, put_old: String },
    /// Change directory to the new `/`.
    ChdirRoot,
    /// Lazily detach the parked old root, severing the last path back to
    /// the host filesystem.
    DetachOldRoot { path: String },
    /// Remove the (now empty) parking directory.
    RemoveOldRootDir { path: String },
    /// Mount `/proc` with nosuid, noexec, nodev.
    MountProc,
    /// Mount `/run` as a small tmpfs with nosuid, nodev, mode 0755.
    MountRun,
    /// Bind a vault subtree to its in-room target.
    BindVault { source: String, target: String },
    /// Remount a bound vault read-only (bind + remount is the portable
    /// two-step recipe; a read-only bind alone is not honored everywhere).
    RemountReadonly { target: String },
    /// Drop every capability bit 0..=last from the bounding set.
    DropBoundingCaps { last: u32 },
    /// Set no-new-privs, so setuid and file capabilities cannot regrow
    /// privilege.
    SetNoNewPrivs,
    /// Exec the room init: try `first`, fall back to `fallback`.
    ExecInit { first: String, fallback: String },
}

/// Ghost image of an init step.
pub enum InitStepView {
    SetParentDeathKill,
    MakeMountsPrivate,
    MountImage { source: Seq<char>, target: Seq<char> },
    EnsureDir { path: Seq<char> },
    PivotRoot { new_root: Seq<char>, put_old: Seq<char> },
    ChdirRoot,
    DetachOldRoot { path: Seq<char> },
    RemoveOldRootDir { path: Seq<char> },
    MountProc,
    MountRun,
    BindVault { source: Seq<char>, target: Seq<char> },
    RemountReadonly { target: Seq<char> },
    DropBoundingCaps { last: u32 },
    SetNoNewPrivs,
    ExecInit { first: Seq<char>, fallback: Seq<char> },
}

impl View for InitStep {
    type V = InitStepView;

    open spec fn view(&self) -> InitStepView {
        match self {
            InitStep::SetParentDeathKill => InitStepView::SetParentDeathKill,
            InitStep::MakeMountsPrivate => InitStepView::MakeMountsPrivate,
            InitStep::MountImage { source, target } => InitStepView::MountImage {
                source: source@,
                target: target@,
            },
            InitStep::EnsureDir { path } => InitStepView::EnsureDir { path: path@ },
            InitStep::PivotRoot { new_root, put_old } => InitStepView::PivotRoot {
                new_root: new_root@,
                put_old: put_old@,
            },
            InitStep::ChdirRoot => InitStepView::ChdirRoot,
            InitStep::DetachOldRoot { path } => InitStepView::DetachOldRoot { path: path@ },
            InitStep::RemoveOldRootDir { path } => InitStepView::RemoveOldRootDir { path: path@ },
            InitStep::MountProc => InitStepView::MountProc,
            InitStep::MountRun => InitStepView::MountRun,
            InitStep::BindVault { source, target } => InitStepView::BindVault {
                source: source@,
                target: target@,
            },
            InitStep::RemountReadonly { target } => InitStepView::RemountReadonly {
                target: target@,
            },
            InitStep::DropBoundingCaps { last } => InitStepView::DropBoundingCaps { last: *last },
            InitStep::SetNoNewPrivs => InitStepView::SetNoNewPrivs,
            InitStep::ExecInit { first, fallback } => InitStepView::ExecInit {
                first: first@,
                fallback: fallback@,
            },
        }
    }
}

/// The steps one vault contributes: a bind, then - exactly for read-only
/// vaults - the remount that makes the kernel honor read-only.
pub open spec fn spec_vault_steps_one(v: VaultView) -> Seq<InitStepView> {
    if v.readonly {
        seq![
            InitStepView::BindVault { source: v.source, target: v.target },
            InitStepView::RemountReadonly { target: v.target },
        ]
    } else {
        seq![InitStepView::BindVault { source: v.source, target: v.target }]
    }
}

/// The steps of all vaults, in policy order.
pub open spec fn spec_vault_steps(vs: Seq<VaultView>) -> Seq<InitStepView>
    decreases vs.len(),
{
    if vs.len() == 0 {
        Seq::empty()
    } else {
        spec_vault_steps(vs.drop_last()) + spec_vault_steps_one(vs.last())
    }
}

/// The twelve steps before the vault mounts: death signal, mount
/// hygiene, image mount, pivot with old-root disposal, `/proc` and
/// `/run`.
pub open spec fn spec_plan_prefix(c: RoomConfigView) -> Seq<InitStepView> {
    seq![
        InitStepView::SetParentDeathKill,
        InitStepView::MakeMountsPrivate,
        InitStepView::MountImage { source: c.image_path, target: spec_room_root_path(c.id) },
        InitStepView::EnsureDir { path: spec_room_root_path(c.id) + "/.oldroot"@ },
        InitStepView::PivotRoot {
            new_root: spec_room_root_path(c.id),
            put_old: spec_room_root_path(c.id) + "/.oldroot"@,
        },
        InitStepView::ChdirRoot,
        InitStepView::DetachOldRoot { path: "/.oldroot"@ },
        InitStepView::RemoveOldRootDir { path: "/.oldroot"@ },
        InitStepView::EnsureDir { path: "/proc"@ },
        InitStepView::MountProc,
        InitStepView::EnsureDir { path: "/run"@ },
        InitStepView::MountRun,
    ]
}

/// The three final steps: capability floor, no-new-privs, exec.
pub open spec fn spec_plan_suffix() -> Seq<InitStepView> {
    seq![
        InitStepView::DropBoundingCaps { last: 63 },
        InitStepView::SetNoNewPrivs,
        InitStepView::ExecInit { first: "/init"@, fallback: "/bin/sh"@ },
    ]
}

/// The whole child init sequence for a spawn input. The order is
/// load-bearing; the lemmas below state the properties that re-orderings
/// would break.
pub open spec fn spec_child_init_plan(c: RoomConfigView) -> Seq<InitStepView> {
    spec_plan_prefix(c) + spec_vault_steps(c.vaults) + spec_plan_suffix()
}

/// Builds the child init sequence for this spawn input, exactly as
/// `spec_child_init_plan` lays it out.
pub fn child_init_plan(config: &RoomConfig) -> (r: Vec<InitStep>)
    ensures
        r@.map_values(|s: InitStep| s@) == spec_child_init_plan(config@),
{
    let root = room_root_path(config.id.as_str());
    let mut old_root = root.clone();
    old_root.append("/.oldroot");
    let mut plan: Vec<InitStep> = Vec::new();
    plan.push(InitStep::SetParentDeathKill);
    plan.push(InitStep::MakeMountsPrivate);
    plan.push(
        InitStep::MountImage { source: config.image_path.clone(), target: root.clone() },
    );
    plan.push(InitStep::EnsureDir { path: old_root.clone() });
    plan.push(InitStep::PivotRoot { new_root: root, put_old: old_root });
    plan.push(InitStep::ChdirRoot);
    plan.push(InitStep::DetachOldRoot { path: "/.oldroot".to_owned() });
    plan.push(InitStep::RemoveOldRootDir { path: "/.oldroot".to_owned() });
    plan.push(InitStep::EnsureDir { path: "/proc".to_owned() });
    plan.push(InitStep::MountProc);
    plan.push(InitStep::EnsureDir { path: "/run".to_owned() });
    plan.push(InitStep::MountRun);
    proof {
        assert(plan@.map_values(|s: InitStep| s@) =~= spec_plan_prefix(config@));
    }
    let ghost pre = spec_plan_prefix(config@);
    let n = config.vaults.len();
    let mut i: usize = 0;
    while i < n
        invariant
            0 <= i <= n,
            n == config.vaults@.len(),
            pre == spec_plan_prefix(config@),
            plan@.map_values(|s: InitStep| s@) == pre + spec_vault_steps(
                config@.vaults.take(i as int),
            ),
        decreases n - i,
    {
        let ghost planv = plan@.map_values(|s: InitStep| s@);
        let ghost vv = config@.vaults[i as int];
        proof {
            assert(config@.vaults.take(i as int + 1).drop_last() =~= config@.vaults.take(i as int));
            assert(config@.vaults.take(i as int + 1).last() == vv);
            assert(vv == config.vaults@[i as int]@);
        }
        let src = config.vaults[i].source.clone();
        let tgt = config.vaults[i].target.clone();
        let readonly = config.vaults[i].readonly;
        if readonly {
            let tgt2 = tgt.clone();
            let b = InitStep::BindVault { source: src, target: tgt };
            let m = InitStep::RemountReadonly { target: tgt2 };
            proof {
                assert(plan@.push(b).push(m).map_values(|s: InitStep| s@) =~= planv
                    + spec_vault_steps_one(vv));
                assert(planv + spec_vault_steps_one(vv) =~= pre + (spec_vault_steps(
                    config@.vaults.take(i as int),
                ) + spec_vault_steps_one(vv)));
            }
            plan.push(b);
            plan.push(m);
        } else {
            let b = InitStep::BindVault { source: src, target: tgt };
            proof {
                assert(plan@.push(b).map_values(|s: InitStep| s@) =~= planv
                    + spec_vault_steps_one(vv));
                assert(planv + spec_vault_steps_one(vv) =~= pre + (spec_vault_steps(
                    config@.vaults.take(i as int),
                ) + spec_vault_steps_one(vv)));
            }
            plan.push(b);
        }
        i += 1;
    }
    proof {
        assert(config@.vaults.take(n as int) =~= config@.vaults);
    }
    let ghost mid = plan@.map_values(|s: InitStep| s@);
    plan.push(InitStep::DropBoundingCaps { last: 63 });
    plan.push(InitStep::SetNoNewPrivs);
    plan.push(
        InitStep::ExecInit { first: "/init".to_owned(), fallback: "/bin/sh".to_owned() },
    );
    proof {
        assert(plan@.map_values(|s: InitStep| s@) =~= mid + spec_plan_suffix());
        assert(mid + spec_plan_suffix() =~= spec_child_init_plan(config@));
    }
    plan
}

/// Vault steps are bind and remount steps only; nothing in the vault
/// segment pivots, drops capabilities or execs.
proof fn lemma_vault_steps_kinds(vs: Seq<VaultView>)
    ensures
        forall|k: int| 0 <= k < spec_vault_steps(vs).len() ==> ((#[trigger] spec_vault_steps(
            vs,
        )[k]) is BindVault || spec_vault_steps(vs)[k] is RemountReadonly),
    decreases vs.len(),
{
    if vs.len() > 0 {
        lemma_vault_steps_kinds(vs.drop_last());
    }
}

/// Every vault contributes its bind step, and a read-only vault's bind
/// is immediately followed by its read-only remount.
proof fn lemma_vault_steps_two_step(vs: Seq<VaultView>, v: int)
    requires
        0 <= v < vs.len(),
    ensures
        exists|k: int|
            {
                &&& 0 <= k < spec_vault_steps(vs).len()
                &&& (#[trigger] spec_vault_steps(vs)[k]) == (InitStepView::BindVault {
                    source: vs[v].source,
                    target: vs[v].target,
                })
                &&& (vs[v].readonly ==> k + 1 < spec_vault_steps(vs).len() && spec_vault_steps(
                    vs,
                )[k + 1] == (InitStepView::RemountReadonly { target: vs[v].target }))
            },
    decreases vs.len(),
{
    let steps = spec_vault_steps(vs);
    if v == vs.len() - 1 {
        let k = spec_vault_steps(vs.drop_last()).len() as int;
        assert(steps[k] == (InitStepView::BindVault {
            source: vs[v].source,
            target: vs[v].target,
        }));
        if vs[v].readonly {
            assert(steps[k + 1] == (InitStepView::RemountReadonly { target: vs[v].target }));
        }
    } else {
        let d = vs.drop_last();
        lemma_vault_steps_two_step(d, v);
        let k = choose|k: int|
            {
                &&& 0 <= k < spec_vault_steps(d).len()
                &&& (#[trigger] spec_vault_steps(d)[k]) == (InitStepView::BindVault {
                    source: d[v].source,
                    target: d[v].target,
                })
                &&& (d[v].readonly ==> k + 1 < spec_vault_steps(d).len() && spec_vault_steps(
                    d,
                )[k + 1] == (InitStepView::RemountReadonly { target: d[v].target }))
            };
        assert(d[v] == vs[v]);
        let steps2 = spec_vault_steps(d);
        assert(steps[k] == steps2[k]);
        if vs[v].readonly {
            assert(steps[k + 1] == steps2[k + 1]);
        }
    }
}

/// Parent-death propagation: the very first thing the child does is arm
/// the kernel to SIGKILL it when the supervisor dies, so killing the
/// supervisor reaps every room before the room runs anything.
pub proof fn lemma_plan_parent_death_first(c: RoomConfigView)
    ensures
        spec_child_init_plan(c).len() >= 15,
        spec_child_init_plan(c)[0] == InitStepView::SetParentDeathKill,
{
}

/// No escape from pivot: the plan pivots into the image root exactly
/// once, immediately detaches and removes the parked old root, and every
/// later mount or exec step comes strictly after - so by the time
/// anything inside the room runs, no path leads back to the host root.
pub proof fn lemma_plan_no_escape(c: RoomConfigView)
    ensures
        ({
            let plan = spec_child_init_plan(c);
            let root = spec_room_root_path(c.id);
            &&& plan[4] == (InitStepView::PivotRoot {
                new_root: root,
                put_old: root + "/.oldroot"@,
            })
            &&& plan[6] == (InitStepView::DetachOldRoot { path: "/.oldroot"@ })
            &&& plan[7] == (InitStepView::RemoveOldRootDir { path: "/.oldroot"@ })
            &&& (forall|k: int| 0 <= k < plan.len() && (#[trigger] plan[k]) is PivotRoot ==> k
                == 4)
            &&& (forall|k: int| 0 <= k < plan.len() && (#[trigger] plan[k]) is ExecInit ==> k > 7)
            &&& (forall|k: int| 0 <= k < plan.len() && (#[trigger] plan[k]) is BindVault ==> k > 7)
        }),
{
    let plan = spec_child_init_plan(c);
    let pre = spec_plan_prefix(c);
    let vs = spec_vault_steps(c.vaults);
    lemma_vault_steps_kinds(c.vaults);
    assert forall|k: int| 0 <= k < plan.len() && (#[trigger] plan[k]) is PivotRoot implies k
        == 4 by {
        if k < 12 {
            assert(plan[k] == pre[k]);
        } else if k < 12 + vs.len() {
            assert(plan[k] == vs[k - 12]);
        } else {
            assert(plan[k] == spec_plan_suffix()[k - 12 - vs.len()]);
        }
    }
    assert forall|k: int| 0 <= k < plan.len() && (#[trigger] plan[k]) is ExecInit implies k
        > 7 by {
        if k < 12 {
            assert(plan[k] == pre[k]);
        } else if k < 12 + vs.len() {
            assert(plan[k] == vs[k - 12]);
        }
    }
    assert forall|k: int| 0 <= k < plan.len() && (#[trigger] plan[k]) is BindVault implies k
        > 7 by {
        if k < 12 {
            assert(plan[k] == pre[k]);
        }
    }
}

/// Capability floor: after the vault mounts the plan drops every
/// capability bit 0..=63 from the bounding set and sets no-new-privs,
/// and only then execs - nothing runs inside the room with any
/// capability left to it.
pub proof fn lemma_plan_capability_floor(c: RoomConfigView)
    ensures
        ({
            let plan = spec_child_init_plan(c);
            let vsl = spec_vault_steps(c.vaults).len() as int;
            &&& plan.len() == 15 + vsl
            &&& plan[12 + vsl] == (InitStepView::DropBoundingCaps { last: 63 })
            &&& plan[13 + vsl] == InitStepView::SetNoNewPrivs
            &&& plan[14 + vsl] == (InitStepView::ExecInit {
                first: "/init"@,
                fallback: "/bin/sh"@,
            })
            &&& (forall|k: int| 0 <= k < plan.len() && (#[trigger] plan[k]) is ExecInit ==> k == 14
                + vsl)
        }),
{
    let plan = spec_child_init_plan(c);
    let pre = spec_plan_prefix(c);
    let vs = spec_vault_steps(c.vaults);
    lemma_vault_steps_kinds(c.vaults);
    assert forall|k: int| 0 <= k < plan.len() && (#[trigger] plan[k]) is ExecInit implies k == 14
        + vs.len() by {
        if k < 12 {
            assert(plan[k] == pre[k]);
        } else if k < 12 + vs.len() {
            assert(plan[k] == vs[k - 12]);
        } else {
            assert(plan[k] == spec_plan_suffix()[k - 12 - vs.len()]);
        }
    }
}

/// Read-only enforcement: every vault the policy marks read-only is
/// bound and then immediately remounted read-only - the two-step recipe
/// the kernel honors - so writes inside the room fail even for uid 0.
pub proof fn lemma_plan_readonly_two_step(c: RoomConfigView, v: int)
    requires
        0 <= v < c.vaults.len(),
        c.vaults[v].readonly,
    ensures
        exists|k: int|
            {
                &&& 0 <= k && k + 1 < spec_child_init_plan(c).len()
                &&& (#[trigger] spec_child_init_plan(c)[k]) == (InitStepView::BindVault {
                    source: c.vaults[v].source,
                    target: c.vaults[v].target,
                })
                &&& spec_child_init_plan(c)[k + 1] == (InitStepView::RemountReadonly {
                    target: c.vaults[v].target,
                })
            },
{
    let plan = spec_child_init_plan(c);
    let w = c.vaults;
    lemma_vault_steps_two_step(c.vaults, v);
    let k = choose|k: int|
        {
            &&& 0 <= k < spec_vault_steps(w).len()
            &&& (#[trigger] spec_vault_steps(w)[k]) == (InitStepView::BindVault {
                source: w[v].source,
                target: w[v].target,
            })
            &&& (w[v].readonly ==> k + 1 < spec_vault_steps(w).len() && spec_vault_steps(
                w,
            )[k + 1] == (InitStepView::RemountReadonly { target: w[v].target }))
        };
    assert(plan[12 + k] == spec_vault_steps(w)[k]);
    assert(plan[12 + k + 1] == spec_vault_steps(w)[k + 1]);
}

} // verus!
