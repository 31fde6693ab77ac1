//! Control plane: a line-oriented FIFO protocol. An external writer
//! appends UTF-8 lines of whitespace-separated tokens; the supervisor
//! drains complete lines every tick and dispatches the commands. Partial
//! lines stay buffered until their newline arrives; empty lines are
//! skipped; unknown verbs are reported as `Unknown` and never fatal.

use vstd::prelude::*;

use crate::errs::Bay0Error;
use crate::room::kill_room;
use crate::sys::bytes_to_string_lossy;
use crate::sys::fd_read_chunk;
use crate::sys::fs_mkdir;
use crate::sys::fs_mkfifo;
use crate::sys::fs_open;
use crate::sys::fs_stat_mode;
use crate::sys::lossy_utf8;
use crate::sys::MkdirOutcome;
use crate::sys::OpenKind;
use crate::sys::ReadOutcome;
use crate::sys::StatOutcome;
use crate::table::RoomTable;
use crate::text::find_newline;
use crate::text::spec_nl_pos;
use crate::text::spec_tokens;
use crate::text::spec_trim;
use crate::text::str_eq;
use crate::text::tokenize;
use crate::text::trim;

verus! {

/// In `st_mode`, the file-type bits and the value naming a FIFO.
const MODE_TYPE_MASK: u32 = 0o170000;

const MODE_TYPE_FIFO: u32 = 0o010000;

/// One parsed control command.
pub enum Command {
    /// `spawn <id> <image_path> [policy_path]`
    Spawn { id: String, image: String, policy: Option<String> },
    /// `kill <id>`
    Kill { id: String },
    /// `list`
    List,
    /// Anything else; logged and ignored, never fatal.
    Unknown,
}

/// Ghost image of a command.
pub enum CommandView {
    Spawn { id: Seq<char>, image: Seq<char>, policy: Option<Seq<char>> },
    Kill { id: Seq<char> },
    List,
    Unknown,
}

impl View for Command {
    type V = CommandView;

    open spec fn view(&self) -> CommandView {
        match self {
            Command::Spawn { id, image, policy } => CommandView::Spawn {
                id: id@,
                image: image@,
                policy: match policy {
                    Some(p) => Some(p@),
                    None => None,
                },
            },
            Command::Kill { id } => CommandView::Kill { id: id@ },
            Command::List => CommandView::List,
            Command::Unknown => CommandView::Unknown,
        }
    }
}

/// What a control line means: by its whitespace-separated tokens.
pub open spec fn spec_parse_command(line: Seq<char>) -> CommandView {
    let toks = spec_tokens(line);
    if toks.len() == 1 && toks[0] == "list"@ {
        CommandView::List
    } else if toks.len() == 2 && toks[0] == "kill"@ {
        CommandView::Kill { id: toks[1] }
    } else if toks.len() == 3 && toks[0] == "spawn"@ {
        CommandView::Spawn { id: toks[1], image: toks[2], policy: None }
    } else if toks.len() == 4 && toks[0] == "spawn"@ {
        CommandView::Spawn { id: toks[1], image: toks[2], policy: Some(toks[3]) }
    } else {
        CommandView::Unknown
    }
}

/// Parses one control line into its command.
pub fn parse_command(line: &str) -> (r: Command)
    ensures
        r@ == spec_parse_command(line@),
{
    let toks = tokenize(line);
    let ghost toksv = toks@.map_values(|t: String| t@);
    if toks.len() == 1 && str_eq(toks[0].as_str(), "list") {
        proof {
            assert(toksv[0] == toks@[0]@);
        }
        return Command::List;
    }
    if toks.len() == 2 && str_eq(toks[0].as_str(), "kill") {
        proof {
            assert(toksv[0] == toks@[0]@);
            assert(toksv[1] == toks@[1]@);
        }
        return Command::Kill { id: toks[1].clone() };
    }
    if toks.len() == 3 && str_eq(toks[0].as_str(), "spawn") {
        proof {
            assert(toksv[0] == toks@[0]@);
            assert(toksv[1] == toks@[1]@);
            assert(toksv[2] == toks@[2]@);
        }
        return Command::Spawn { id: toks[1].clone(), image: toks[2].clone(), policy: None };
    }
    if toks.len() == 4 && str_eq(toks[0].as_str(), "spawn") {
        proof {
            assert(toksv[0] == toks@[0]@);
            assert(toksv[1] == toks@[1]@);
            assert(toksv[2] == toks@[2]@);
            assert(toksv[3] == toks@[3]@);
        }
        return Command::Spawn {
            id: toks[1].clone(),
            image: toks[2].clone(),
            policy: Some(toks[3].clone()),
        };
    }
    proof {
        assert(toks@.len() >= 1 ==> toksv[0] == toks@[0]@);
    }
    Command::Unknown
}

/// The complete lines a buffer yields, trimmed and with empty lines
/// skipped, and what stays buffered (the trailing partial line).
pub open spec fn spec_drain_lines(s: Seq<char>) -> (Seq<Seq<char>>, Seq<char>)
    decreases s.len(),
{
    let p = spec_nl_pos(s) as int;
    if p >= s.len() {
        (Seq::empty(), s)
    } else {
        let line = spec_trim(s.take(p));
        let rest = spec_drain_lines(s.skip(p + 1));
        if line.len() > 0 {
            (seq![line] + rest.0, rest.1)
        } else {
            rest
        }
    }
}

/// Empty lines are skipped: every line draining yields is nonempty.
pub proof fn lemma_drained_lines_nonempty(s: Seq<char>)
    ensures
        forall|i: int| 0 <= i < spec_drain_lines(s).0.len() ==> (#[trigger] spec_drain_lines(
            s,
        ).0[i]).len() > 0,
    decreases s.len(),
{
    let p = spec_nl_pos(s) as int;
    crate::text::lemma_nl_pos_le(s);
    if p < s.len() {
        lemma_drained_lines_nonempty(s.skip(p + 1));
        let line = spec_trim(s.take(p));
        let rest = spec_drain_lines(s.skip(p + 1));
        if line.len() > 0 {
            assert forall|i: int| 0 <= i < spec_drain_lines(s).0.len() implies (
            #[trigger] spec_drain_lines(s).0[i]).len() > 0 by {
                if i == 0 {
                    assert(spec_drain_lines(s).0[0] == line);
                } else {
                    assert(spec_drain_lines(s).0[i] == rest.0[i - 1]);
                }
            }
        }
    }
}

/// Partial lines wait for their newline: what draining leaves buffered
/// never holds a newline, so it is exactly the trailing partial line.
pub proof fn lemma_drained_rest_is_partial(s: Seq<char>)
    ensures
        forall|j: int| 0 <= j < spec_drain_lines(s).1.len() ==> (#[trigger] spec_drain_lines(
            s,
        ).1[j]) != '\n',
    decreases s.len(),
{
    let p = spec_nl_pos(s) as int;
    crate::text::lemma_nl_pos_le(s);
    if p >= s.len() {
        assert forall|j: int| 0 <= j < spec_drain_lines(s).1.len() implies (
        #[trigger] spec_drain_lines(s).1[j]) != '\n' by {
            crate::text::lemma_nl_pos_none_before(s, j);
        }
    } else {
        lemma_drained_rest_is_partial(s.skip(p + 1));
        assert(spec_drain_lines(s).1 == spec_drain_lines(s.skip(p + 1)).1);
    }
}

/// The control plane: the FIFO descriptor and the buffered partial line.
pub struct ControlPlane {
    fd: i32,
    buf: String,
}

impl ControlPlane {
    /// What is buffered and not yet drained.
    pub closed spec fn pending(&self) -> Seq<char> {
        self.buf@
    }

    /// A control plane over an already opened descriptor, for an embedder
    /// that brings its own transport. Nothing is buffered yet.
    pub fn from_fd(fd: i32) -> (r: ControlPlane)
        ensures
            r.pending() == Seq::<char>::empty(),
    {
        ControlPlane { fd, buf: String::new() }
    }

    /// Appends raw bytes (as read from the FIFO) to the buffer, decoding
    /// them as UTF-8 with lossy replacement; ASCII bytes decode to the
    /// characters of the same values.
    pub fn feed(&mut self, bytes: &[u8])
        ensures
            final(self).pending() == old(self).pending() + lossy_utf8(bytes@),
            (forall|i: int| 0 <= i < bytes@.len() ==> bytes@[i] < 128) ==> (final(self).pending()
                .len() == old(self).pending().len() + bytes@.len() && (forall|i: int|
                0 <= i < bytes@.len() ==> final(self).pending()[old(self).pending().len() + i]
                    == bytes@[i] as char)),
    {
        let chunk = bytes_to_string_lossy(bytes);
        self.buf.append(chunk.as_str());
    }

    /// Drains every complete line out of the buffer: each is trimmed,
    /// empty lines are skipped, and the trailing partial line stays
    /// buffered until its newline arrives.
    pub fn take_lines(&mut self) -> (r: Vec<String>)
        ensures
            r@.map_values(|t: String| t@) == spec_drain_lines(old(self).pending()).0,
            final(self).pending() == spec_drain_lines(old(self).pending()).1,
    {
        let ghost orig = self.buf@;
        let mut out: Vec<String> = Vec::new();
        loop
            invariant
                orig == old(self).pending(),
                spec_drain_lines(orig).0 == out@.map_values(|t: String| t@) + spec_drain_lines(
                    self.buf@,
                ).0,
                spec_drain_lines(orig).1 == spec_drain_lines(self.buf@).1,
            decreases self.buf@.len(),
        {
            let ghost cur = self.buf@;
            let ghost outv = out@.map_values(|t: String| t@);
            let n = self.buf.as_str().unicode_len();
            let p = find_newline(self.buf.as_str());
            proof {
                crate::text::lemma_nl_pos_le(cur);
            }
            if p >= n {
                proof {
                    assert(outv + Seq::<Seq<char>>::empty() =~= outv);
                }
                return out;
            }
            let line = trim(self.buf.as_str().substring_char(0, p)).to_owned();
            proof {
                assert(cur.take(p as int) =~= self.buf@.subrange(0, p as int));
                assert(line@ == spec_trim(cur.take(p as int)));
            }
            let rest = self.buf.as_str().substring_char(p + 1, n).to_owned();
            proof {
                assert(rest@ =~= cur.skip(p as int + 1));
            }
            self.buf = rest;
            if line.as_str().unicode_len() > 0 {
                proof {
                    assert(out@.push(line).map_values(|t: String| t@) =~= outv + seq![line@]);
                    assert(outv + (seq![line@] + spec_drain_lines(self.buf@).0) =~= (outv + seq![
                        line@,
                    ]) + spec_drain_lines(self.buf@).0);
                }
                out.push(line);
            }
        }
    }

    /// Drains the FIFO without blocking: reads what is available (at
    /// most 64 chunks per tick; the next tick continues), buffers it,
    /// and hands back the complete lines. Read errors other than "would
    /// block" end the drain for this tick; the descriptor stays open.
    pub fn poll_control(&mut self) -> (r: Vec<String>)
        ensures
            exists|incoming: Seq<char>|
                {
                    let d = #[trigger] spec_drain_lines(old(self).pending() + incoming);
                    &&& r@.map_values(|t: String| t@) == d.0
                    &&& final(self).pending() == d.1
                },
    {
        let ghost start = self.buf@;
        proof {
            assert(self.buf@ =~= start + Seq::<char>::empty());
        }
        let mut reads: usize = 0;
        while reads < 64
            invariant
                0 <= reads <= 64,
                start == old(self).pending(),
                exists|incoming: Seq<char>| self.buf@ == start + incoming,
            decreases 64 - reads,
        {
            match fd_read_chunk(self.fd) {
                ReadOutcome::Data(v) => {
                    let ghost before = self.buf@;
                    self.feed(v.as_slice());
                    proof {
                        let w = choose|incoming: Seq<char>| before == start + incoming;
                        assert(self.buf@ == start + (w + lossy_utf8(v@)));
                    }
                },
                ReadOutcome::Eof => {
                    break ;
                },
                ReadOutcome::WouldBlock => {
                    break ;
                },
                ReadOutcome::Failed(_) => {
                    break ;
                },
            }
            reads += 1;
        }
        let ghost fed = choose|incoming: Seq<char>| self.buf@ == start + incoming;
        let lines = self.take_lines();
        proof {
            assert(drained_from(start, fed, lines@.map_values(|t: String| t@), self.buf@));
        }
        lines
    }
}

/// The poll contract's shape: the drained lines and the remaining buffer
/// are exactly what draining the old buffer plus the incoming text
/// yields.
pub open spec fn drained_from(
    start: Seq<char>,
    incoming: Seq<char>,
    lines: Seq<Seq<char>>,
    left: Seq<char>,
) -> bool {
    let d = spec_drain_lines(start + incoming);
    lines == d.0 && left == d.1
}

/// Creates the control plane: ensures the runtime directory and the
/// FIFO exist (mode 0600), refuses a control path that is not a FIFO,
/// and opens it read-write, non-blocking, close-on-exec - read-write so
/// the FIFO never reports end of file while writers are absent. The
/// fresh control plane has nothing buffered.
pub fn init_control_plane() -> (r: Result<ControlPlane, Bay0Error>)
    ensures
        r matches Ok(cp) ==> cp.pending() == Seq::<char>::empty(),
{
    match fs_mkdir("/run", 0o755) {
        MkdirOutcome::Failed(e) => {
            return Err(Bay0Error::IoFailure { operation: "create /run", errno: e });
        },
        _ => (),
    }
    match fs_mkdir("/run/rooms", 0o755) {
        MkdirOutcome::Failed(e) => {
            return Err(Bay0Error::IoFailure { operation: "create /run/rooms", errno: e });
        },
        _ => (),
    }
    match fs_stat_mode("/run/rooms/control") {
        StatOutcome::Mode(m) => {
            if m & MODE_TYPE_MASK != MODE_TYPE_FIFO {
                return Err(
                    Bay0Error::RoomSpawnFailure {
                        room: "control".to_owned(),
                        reason: "control path exists but is not a FIFO",
                    },
                );
            }
        },
        StatOutcome::Missing => {
            match fs_mkfifo("/run/rooms/control", 0o600) {
                Ok(()) => (),
                Err(e) => {
                    return Err(
                        Bay0Error::SyscallFailure { syscall: "mkfifo(control)", errno: e },
                    );
                },
            }
        },
        StatOutcome::Failed(e) => {
            return Err(Bay0Error::IoFailure { operation: "stat control fifo", errno: e });
        },
    }
    match fs_open("/run/rooms/control", OpenKind::FifoRdwr) {
        Ok(fd) => Ok(ControlPlane { fd, buf: String::new() }),
        Err(e) => Err(Bay0Error::SyscallFailure { syscall: "open(control fifo)", errno: e }),
    }
}

/// Handles a kill command: kills the room (idempotently - the kill is
/// attempted even if the table does not know the id) and forgets it.
/// The table afterwards is exactly the old table without the id, and
/// the command never fails.
pub fn handle_kill(table: &mut RoomTable, id: &str) -> (r: Result<(), Bay0Error>)
    requires
        old(table).wf(),
    ensures
        final(table).wf(),
        final(table)@ == old(table)@.remove(id@),
        r.is_ok(),
{
    let res = kill_room(id);
    table.remove(id);
    res
}

} // verus!
