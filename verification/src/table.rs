//! The room table: the supervisor's in-memory record of live rooms,
//! a mapping from room id to the host pid of the room's init. The
//! supervisor owns it exclusively; it is updated by insert on successful
//! spawn and by remove on kill.

use vstd::prelude::*;

use crate::text::str_eq;

verus! {

/// In-memory record of a live room.
pub struct RoomHandle {
    /// Room id, as given at spawn.
    pub id: String,
    /// Host pid of the room's init (pid 1 of the room's pid namespace).
    pub pid: i32,
}

impl Clone for RoomHandle {
    fn clone(&self) -> (r: Self)
        ensures
            r.id@ == self.id@,
            r.pid == self.pid,
    {
        RoomHandle { id: self.id.clone(), pid: self.pid }
    }
}

/// The mapping the entries denote, later entries shadowing earlier ones
/// (well-formed tables have no duplicate ids, so nothing shadows).
spec fn spec_entries_map(s: Seq<RoomHandle>) -> Map<Seq<char>, int>
    decreases s.len(),
{
    if s.len() == 0 {
        Map::empty()
    } else {
        spec_entries_map(s.drop_last()).insert(s.last().id@, s.last().pid as int)
    }
}

/// No two entries share an id.
spec fn distinct_ids(s: Seq<RoomHandle>) -> bool {
    forall|i: int, j: int| 0 <= i < j < s.len() ==> s[i].id@ != s[j].id@
}

/// Mapping from room id to room handle.
pub struct RoomTable {
    rooms: Vec<RoomHandle>,
}

impl View for RoomTable {
    type V = Map<Seq<char>, int>;

    closed spec fn view(&self) -> Map<Seq<char>, int> {
        spec_entries_map(self.rooms@)
    }
}

/// A key none of the entries carries is not in the denoted map.
proof fn lemma_entries_absent(s: Seq<RoomHandle>, k: Seq<char>)
    requires
        forall|i: int| 0 <= i < s.len() ==> s[i].id@ != k,
    ensures
        !spec_entries_map(s).contains_key(k),
    decreases s.len(),
{
    if s.len() > 0 {
        lemma_entries_absent(s.drop_last(), k);
    }
}

/// Every entry of a well-formed table is in the denoted map, with its pid.
proof fn lemma_entries_present(s: Seq<RoomHandle>, i: int)
    requires
        distinct_ids(s),
        0 <= i < s.len(),
    ensures
        spec_entries_map(s).contains_key(s[i].id@),
        spec_entries_map(s)[s[i].id@] == s[i].pid as int,
    decreases s.len(),
{
    if i < s.len() - 1 {
        lemma_entries_present(s.drop_last(), i);
        assert(s[i].id@ != s.last().id@);
    }
}

/// Removing entry `i` of a well-formed table removes exactly its key.
proof fn lemma_entries_remove(s: Seq<RoomHandle>, i: int)
    requires
        distinct_ids(s),
        0 <= i < s.len(),
    ensures
        spec_entries_map(s.remove(i)) == spec_entries_map(s).remove(s[i].id@),
    decreases s.len(),
{
    let k = s[i].id@;
    if i == s.len() - 1 {
        assert(s.remove(i) =~= s.drop_last());
        lemma_entries_absent(s.drop_last(), k);
        assert(spec_entries_map(s.drop_last()).insert(k, s.last().pid as int).remove(k)
            =~= spec_entries_map(s.drop_last()));
    } else {
        let d = s.drop_last();
        assert(distinct_ids(d));
        lemma_entries_remove(d, i);
        assert(s.remove(i).drop_last() =~= d.remove(i));
        assert(s.remove(i).last() == s.last());
        assert(spec_entries_map(s.remove(i)) == spec_entries_map(d.remove(i)).insert(
            s.last().id@,
            s.last().pid as int,
        ));
        assert(k != s.last().id@);
        assert(spec_entries_map(d).remove(k).insert(s.last().id@, s.last().pid as int)
            =~= spec_entries_map(d).insert(s.last().id@, s.last().pid as int).remove(k));
    }
}

/// A well-formed table denotes a map with one key per entry.
proof fn lemma_entries_dom_len(s: Seq<RoomHandle>)
    requires
        distinct_ids(s),
    ensures
        spec_entries_map(s).dom().finite(),
        spec_entries_map(s).dom().len() == s.len(),
    decreases s.len(),
{
    if s.len() > 0 {
        let d = s.drop_last();
        assert(distinct_ids(d));
        lemma_entries_dom_len(d);
        lemma_entries_absent(d, s.last().id@);
        vstd::set::axiom_set_insert_len(spec_entries_map(d).dom(), s.last().id@);
        assert(spec_entries_map(s).dom() =~= spec_entries_map(d).dom().insert(s.last().id@));
    }
}

impl RoomTable {
    /// No two entries share an id.
    pub closed spec fn wf(&self) -> bool {
        distinct_ids(self.rooms@)
    }

    /// The empty table.
    pub fn new() -> (t: RoomTable)
        ensures
            t.wf(),
            t@ == Map::<Seq<char>, int>::empty(),
    {
        RoomTable { rooms: Vec::new() }
    }

    /// How many rooms are live.
    pub fn len(&self) -> (r: usize)
        requires
            self.wf(),
        ensures
            r == self@.dom().len(),
    {
        proof {
            lemma_entries_dom_len(self.rooms@);
        }
        self.rooms.len()
    }

    /// The `i`th handle, for enumerating live rooms.
    pub fn at(&self, i: usize) -> (h: &RoomHandle)
        requires
            self.wf(),
            i < self@.dom().len(),
        ensures
            self@.contains_key(h.id@),
            self@[h.id@] == h.pid as int,
    {
        proof {
            lemma_entries_dom_len(self.rooms@);
            lemma_entries_present(self.rooms@, i as int);
        }
        &self.rooms[i]
    }

    /// Whether a room with this id is live.
    pub fn contains(&self, id: &str) -> (r: bool)
        requires
            self.wf(),
        ensures
            r == self@.contains_key(id@),
    {
        let n = self.rooms.len();
        let mut i: usize = 0;
        while i < n
            invariant
                0 <= i <= n,
                n == self.rooms@.len(),
                self.wf(),
                forall|j: int| 0 <= j < i ==> self.rooms@[j].id@ != id@,
            decreases n - i,
        {
            if str_eq(self.rooms[i].id.as_str(), id) {
                proof {
                    lemma_entries_present(self.rooms@, i as int);
                }
                return true;
            }
            i += 1;
        }
        proof {
            lemma_entries_absent(self.rooms@, id@);
        }
        false
    }

    /// The pid of a live room's init, if the room is in the table.
    pub fn pid_of(&self, id: &str) -> (r: Option<i32>)
        requires
            self.wf(),
        ensures
            match r {
                Some(p) => self@.contains_key(id@) && self@[id@] == p as int,
                None => !self@.contains_key(id@),
            },
    {
        let n = self.rooms.len();
        let mut i: usize = 0;
        while i < n
            invariant
                0 <= i <= n,
                n == self.rooms@.len(),
                self.wf(),
                forall|j: int| 0 <= j < i ==> self.rooms@[j].id@ != id@,
            decreases n - i,
        {
            if str_eq(self.rooms[i].id.as_str(), id) {
                proof {
                    lemma_entries_present(self.rooms@, i as int);
                }
                return Some(self.rooms[i].pid);
            }
            i += 1;
        }
        proof {
            lemma_entries_absent(self.rooms@, id@);
        }
        None
    }

    /// Records a freshly spawned room. The caller has already checked that
    /// the id is not taken.
    pub fn insert(&mut self, h: RoomHandle)
        requires
            old(self).wf(),
            !old(self)@.contains_key(h.id@),
        ensures
            final(self).wf(),
            final(self)@ == old(self)@.insert(h.id@, h.pid as int),
    {
        proof {
            assert forall|j: int| 0 <= j < self.rooms@.len() implies self.rooms@[j].id@ != h.id@ by {
                lemma_entries_present(self.rooms@, j);
            }
        }
        let ghost s0 = self.rooms@;
        self.rooms.push(h);
        proof {
            assert(self.rooms@.drop_last() =~= s0);
        }
    }

    /// Forgets a room; a no-op when the id is unknown. Mirrors kill, which
    /// succeeds whether or not the room is still recorded.
    pub fn remove(&mut self, id: &str)
        requires
            old(self).wf(),
        ensures
            final(self).wf(),
            final(self)@ == old(self)@.remove(id@),
    {
        let n = self.rooms.len();
        let mut i: usize = 0;
        while i < n
            invariant
                0 <= i <= n,
                n == self.rooms@.len(),
                self.wf(),
                self.rooms@ == old(self).rooms@,
                forall|j: int| 0 <= j < i ==> self.rooms@[j].id@ != id@,
            decreases n - i,
        {
            if str_eq(self.rooms[i].id.as_str(), id) {
                proof {
                    lemma_entries_remove(self.rooms@, i as int);
                }
                self.rooms.remove(i);
                proof {
                    assert(self.wf());
                }
                return ;
            }
            i += 1;
        }
        proof {
            lemma_entries_absent(self.rooms@, id@);
            assert(self@ =~= self@.remove(id@));
        }
    }
}

/// Kill is idempotent at the table: removing an id twice leaves the same
/// table as removing it once.
pub proof fn lemma_kill_idempotent_table(m: Map<Seq<char>, int>, id: Seq<char>)
    ensures
        m.remove(id).remove(id) == m.remove(id),
{
    assert(m.remove(id).remove(id) =~= m.remove(id));
}

/// Spawning a fresh room and then killing it restores the table to its
/// pre-spawn state.
pub proof fn lemma_spawn_then_kill_restores(m: Map<Seq<char>, int>, id: Seq<char>, pid: int)
    requires
        !m.contains_key(id),
    ensures
        m.insert(id, pid).remove(id) == m,
{
    assert(m.insert(id, pid).remove(id) =~= m);
}

} // verus!
