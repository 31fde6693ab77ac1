//! Error taxonomy. Failures carry the name of the syscall or operation and
//! the errno where one exists; logical spawn failures carry the room id and
//! a reason.

use vstd::prelude::*;

verus! {

/// Everything that can go wrong in the governor's core.
#[derive(Debug)]
pub enum Bay0Error {
    /// A named syscall returned an error.
    SyscallFailure { syscall: &'static str, errno: i32 },
    /// A filesystem operation failed.
    IoFailure { operation: &'static str, errno: i32 },
    /// A cgroup operation failed or timed out. An errno of zero means the
    /// library itself gave up (a retry budget ran out).
    CgroupFailure { cgroup: String, errno: i32 },
    /// A logical spawn precondition was violated (id collision, invalid
    /// id, invalid vault target).
    RoomSpawnFailure { room: String, reason: &'static str },
    /// A policy document was malformed; carries the line it failed on.
    PolicyParseFailure { line: usize, reason: &'static str },
}

impl Bay0Error {
    /// Short machine-readable kind, for logging by the supervisor.
    pub fn kind(&self) -> (r: &'static str)
        ensures
            (self is SyscallFailure <==> r@ == "syscall"@),
            (self is IoFailure <==> r@ == "io"@),
            (self is CgroupFailure <==> r@ == "cgroup"@),
            (self is RoomSpawnFailure <==> r@ == "spawn"@),
            (self is PolicyParseFailure <==> r@ == "policy"@),
    {
        proof {
            reveal_strlit("syscall");
            reveal_strlit("io");
            reveal_strlit("cgroup");
            reveal_strlit("spawn");
            reveal_strlit("policy");
            assert("syscall"@.len() == 7);
            assert("io"@.len() == 2);
            assert("cgroup"@.len() == 6);
            assert("spawn"@.len() == 5);
            assert("policy"@.len() == 6);
            assert("cgroup"@[0] == 'c');
            assert("policy"@[0] == 'p');
        }
        match self {
            Bay0Error::SyscallFailure { .. } => "syscall",
            Bay0Error::IoFailure { .. } => "io",
            Bay0Error::CgroupFailure { .. } => "cgroup",
            Bay0Error::RoomSpawnFailure { .. } => "spawn",
            Bay0Error::PolicyParseFailure { .. } => "policy",
        }
    }
}

} // verus!
