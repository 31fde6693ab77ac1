//! Trusted boundary to the operating system. Every function here is a thin
//! wrapper around one `nix` or `std` call; Verus believes the stated
//! contracts without reading the bodies. Contracts promise only what the
//! wrapped call's documentation plainly gives; results that depend on the
//! state of the system are returned as plain values for verified callers
//! to case on.

use vstd::prelude::*;

use nix::errno::Errno;
use nix::fcntl::OFlag;
use nix::mount::MntFlags;
use nix::poll::PollFd;
use nix::sys::stat::Mode;
use nix::sys::wait::WaitPidFlag;
use nix::sys::wait::WaitStatus;
use nix::unistd::Pid;
use nix::unistd::UnlinkatFlags;

verus! {

/// Signal sent to a room init: graceful, forced, or existence probe.
pub enum RoomSignal {
    Term,
    Kill,
    Probe,
}

/// What one non-blocking read returned.
pub enum ReadOutcome {
    /// Between 1 and 4096 bytes arrived.
    Data(Vec<u8>),
    /// End of file.
    Eof,
    /// Nothing available now (EAGAIN / EWOULDBLOCK).
    WouldBlock,
    /// Another error, by errno.
    Failed(i32),
}

/// What a directory creation returned.
pub enum MkdirOutcome {
    Created,
    AlreadyExists,
    Failed(i32),
}

/// What an unlink or directory removal returned.
pub enum RemoveOutcome {
    Removed,
    Missing,
    Failed(i32),
}

/// What a path status probe returned.
pub enum StatOutcome {
    /// The path exists; carries its `st_mode` bits.
    Mode(u32),
    /// The path does not exist.
    Missing,
    /// Another error, by errno.
    Failed(i32),
}

/// What one non-blocking wait returned.
pub enum WaitOutcome {
    /// A child exited; carries its pid and exit code.
    Exited(i32, i32),
    /// A child was killed by a signal; carries its pid.
    Signaled(i32),
    /// No awaited child changed state.
    StillAlive,
    /// A child changed state in some other way (stopped, continued).
    Other,
    /// There are no children to wait for (ECHILD).
    NoChild,
    /// Another error, by errno.
    Failed(i32),
}

/// Relies on nix::sys::signal::kill: sends SIGTERM or SIGKILL, or probes
/// existence with the null signal.
#[verifier::external_body]
pub(crate) fn sys_kill(pid: i32, sig: RoomSignal) -> (r: Result<(), i32>) {
    let s = match sig {
        RoomSignal::Term => Some(nix::sys::signal::Signal::SIGTERM),
        RoomSignal::Kill => Some(nix::sys::signal::Signal::SIGKILL),
        RoomSignal::Probe => None,
    };
    match nix::sys::signal::kill(Pid::from_raw(pid), s) {
        Ok(()) => Ok(()),
        Err(e) => Err(e as i32),
    }
}

/// Relies on nix::sys::wait::waitpid with WNOHANG: never blocks; reports
/// at most one child that changed state.
#[verifier::external_body]
pub(crate) fn sys_waitpid_nohang(pid: i32) -> (r: WaitOutcome) {
    match nix::sys::wait::waitpid(Pid::from_raw(pid), Some(WaitPidFlag::WNOHANG)) {
        Ok(WaitStatus::Exited(p, code)) => WaitOutcome::Exited(p.as_raw(), code),
        Ok(WaitStatus::Signaled(p, _, _)) => WaitOutcome::Signaled(p.as_raw()),
        Ok(WaitStatus::StillAlive) => WaitOutcome::StillAlive,
        Ok(_) => WaitOutcome::Other,
        Err(Errno::ECHILD) => WaitOutcome::NoChild,
        Err(e) => WaitOutcome::Failed(e as i32),
    }
}

/// Relies on nix::poll::poll with no descriptors: blocks for the given
/// number of milliseconds and returns.
#[verifier::external_body]
pub(crate) fn sys_sleep_ms(ms: u32)
    requires
        ms <= 60000,
{
    let mut fds: [PollFd; 0] = [];
    let _ = nix::poll::poll(&mut fds, ms as i32);
}

/// Relies on nix::unistd::read: reads at most 4096 bytes from the
/// descriptor.
#[verifier::external_body]
pub(crate) fn fd_read_chunk(fd: i32) -> (r: ReadOutcome)
    ensures
        r matches ReadOutcome::Data(v) ==> 0 < v@.len() <= 4096,
{
    let mut buf = [0u8; 4096];
    match nix::unistd::read(fd, &mut buf) {
        Ok(0) => ReadOutcome::Eof,
        Ok(n) => ReadOutcome::Data(buf[..n].to_vec()),
        Err(Errno::EAGAIN) => ReadOutcome::WouldBlock,
        Err(e) => ReadOutcome::Failed(e as i32),
    }
}

/// Relies on nix::unistd::write: writes some prefix of the buffer starting
/// at `off` and reports how many bytes the kernel took.
#[verifier::external_body]
pub(crate) fn fd_write_from(fd: i32, buf: &[u8], off: usize) -> (r: Result<usize, i32>)
    requires
        off <= buf@.len(),
    ensures
        r matches Ok(n) ==> off + n <= buf@.len(),
{
    match nix::unistd::write(fd, &buf[off..]) {
        Ok(n) => Ok(n),
        Err(e) => Err(e as i32),
    }
}

/// Relies on nix::unistd::close.
#[verifier::external_body]
pub(crate) fn fd_close(fd: i32) {
    let _ = nix::unistd::close(fd);
}

/// The ways the library opens a file: read-only; write-only with create
/// and truncate and the given permission bits; or read-write non-blocking
/// (the control FIFO, so it never reports end of file while writers are
/// absent).
pub enum OpenKind {
    Read,
    WriteTrunc(u32),
    FifoRdwr,
}

/// Relies on nix::fcntl::open, with O_CLOEXEC always set and the flags of
/// the chosen kind: O_RDONLY; O_WRONLY | O_CREAT | O_TRUNC; or O_RDWR |
/// O_NONBLOCK. A file descriptor is never negative.
#[verifier::external_body]
pub(crate) fn fs_open(path: &str, kind: OpenKind) -> (r: Result<i32, i32>)
    ensures
        r matches Ok(fd) ==> fd >= 0,
{
    let (flags, mode) = match kind {
        OpenKind::Read => (OFlag::O_RDONLY, Mode::empty()),
        OpenKind::WriteTrunc(m) => (
            OFlag::O_WRONLY | OFlag::O_CREAT | OFlag::O_TRUNC,
            Mode::from_bits_truncate(m),
        ),
        OpenKind::FifoRdwr => (OFlag::O_RDWR | OFlag::O_NONBLOCK, Mode::empty()),
    };
    match nix::fcntl::open(path, flags | OFlag::O_CLOEXEC, mode) {
        Ok(fd) => Ok(fd),
        Err(e) => Err(e as i32),
    }
}

/// Relies on nix::unistd::mkdir; EEXIST is reported as AlreadyExists.
#[verifier::external_body]
pub(crate) fn fs_mkdir(path: &str, mode: u32) -> (r: MkdirOutcome) {
    match nix::unistd::mkdir(path, Mode::from_bits_truncate(mode)) {
        Ok(()) => MkdirOutcome::Created,
        Err(Errno::EEXIST) => MkdirOutcome::AlreadyExists,
        Err(e) => MkdirOutcome::Failed(e as i32),
    }
}

/// Relies on nix::unistd::unlink; ENOENT is reported as Missing.
#[verifier::external_body]
pub(crate) fn fs_unlink(path: &str) -> (r: RemoveOutcome) {
    match nix::unistd::unlink(path) {
        Ok(()) => RemoveOutcome::Removed,
        Err(Errno::ENOENT) => RemoveOutcome::Missing,
        Err(e) => RemoveOutcome::Failed(e as i32),
    }
}

/// Relies on nix::unistd::unlinkat with RemoveDir: removes an empty
/// directory; ENOENT is reported as Missing.
#[verifier::external_body]
pub(crate) fn fs_rmdir(path: &str) -> (r: RemoveOutcome) {
    match nix::unistd::unlinkat(None, path, UnlinkatFlags::RemoveDir) {
        Ok(()) => RemoveOutcome::Removed,
        Err(Errno::ENOENT) => RemoveOutcome::Missing,
        Err(e) => RemoveOutcome::Failed(e as i32),
    }
}

/// Relies on nix::unistd::mkfifo.
#[verifier::external_body]
pub(crate) fn fs_mkfifo(path: &str, mode: u32) -> (r: Result<(), i32>) {
    match nix::unistd::mkfifo(path, Mode::from_bits_truncate(mode)) {
        Ok(()) => Ok(()),
        Err(e) => Err(e as i32),
    }
}

/// Relies on nix::sys::stat::stat: hands back the st_mode bits of the
/// path; ENOENT is reported as Missing.
#[verifier::external_body]
pub(crate) fn fs_stat_mode(path: &str) -> (r: StatOutcome) {
    match nix::sys::stat::stat(path) {
        Ok(st) => StatOutcome::Mode(st.st_mode as u32),
        Err(Errno::ENOENT) => StatOutcome::Missing,
        Err(e) => StatOutcome::Failed(e as i32),
    }
}

/// Relies on nix::mount::umount2 with MNT_DETACH: lazily detaches the
/// mount at the path.
#[verifier::external_body]
pub(crate) fn mnt_detach(path: &str) -> (r: Result<(), i32>) {
    match nix::mount::umount2(path, MntFlags::MNT_DETACH) {
        Ok(()) => Ok(()),
        Err(e) => Err(e as i32),
    }
}

/// What String::from_utf8_lossy decodes the bytes to; a function of the
/// bytes alone.
pub uninterp spec fn lossy_utf8(bytes: Seq<u8>) -> Seq<char>;

/// Relies on String::from_utf8_lossy: the decoding depends on the bytes
/// alone, and bytes below 128 (ASCII, always valid UTF-8) decode to the
/// characters with the same values.
#[verifier::external_body]
pub(crate) fn bytes_to_string_lossy(v: &[u8]) -> (r: String)
    ensures
        r@ == lossy_utf8(v@),
        (forall|i: int| 0 <= i < v@.len() ==> v@[i] < 128) ==> (r@.len() == v@.len() && (forall|
            i: int,
        | 0 <= i < v@.len() ==> r@[i] == v@[i] as char)),
{
    String::from_utf8_lossy(v).into_owned()
}

/// Writes the whole buffer, looping over partial writes. Reports the
/// errno of the first failing write; a write that makes no progress stops
/// the loop with errno 0.
pub(crate) fn fd_write_all(fd: i32, buf: &[u8]) -> (r: Result<(), i32>) {
    let n = buf.len();
    let mut off: usize = 0;
    while off < n
        invariant
            0 <= off <= n,
            n == buf@.len(),
        decreases n - off,
    {
        match fd_write_from(fd, buf, off) {
            Ok(k) => {
                if k == 0 {
                    return Err(0);
                }
                off += k;
            },
            Err(e) => {
                return Err(e);
            },
        }
    }
    Ok(())
}

} // verus!
