//! Room membership: the broadcast groups of the real-time channel. A
//! connection belongs to at most one room — the session id it joined — and a
//! room-scoped broadcast reaches exactly the connections enrolled in that
//! room.

use vstd::prelude::*;
use crate::store::entries_map;
use crate::store::entries_unique;
use crate::store::lemma_entries_map_contains;
use crate::store::lemma_entries_map_index;
use crate::store::lemma_entries_map_push;
use crate::store::lemma_entries_map_update;
use crate::trusted::str_eq;
use vstd::pervasive::VecAdditionalExecFns;

verus! {

/// The connections enrolled in `room` under the membership map `m`.
pub open spec fn room_members(m: Map<Seq<char>, Seq<char>>, room: Seq<char>) -> Set<Seq<char>> {
    Set::new(|c: Seq<char>| m.contains_key(c) && m[c] == room)
}

/// Room membership for all connections: a map from connection id to the one
/// room the connection is enrolled in.
pub struct Rooms {
    entries: Vec<(String, String)>,
}

impl View for Rooms {
    type V = Map<Seq<char>, Seq<char>>;

    closed spec fn view(&self) -> Map<Seq<char>, Seq<char>> {
        entries_map(self.entries@)
    }
}

impl Rooms {
    /// The membership invariant: each connection has one entry at most.
    pub closed spec fn wf(&self) -> bool {
        entries_unique(self.entries@)
    }

    /// No connection is enrolled anywhere.
    pub fn new() -> (r: Self)
        ensures
            r.wf(),
            r@ == Map::<Seq<char>, Seq<char>>::empty(),
    {
        Rooms { entries: Vec::new() }
    }

    /// The position of the entry for the given connection, if any.
    fn find(&self, conn: &str) -> (r: Option<usize>)
        ensures
            match r {
                Some(i) => i < self.entries@.len() && self.entries@[i as int].0@ == conn@,
                None => forall|j: int|
                    0 <= j < self.entries@.len() ==> self.entries@[j].0@ != conn@,
            },
    {
        let n = self.entries.len();
        for i in 0..n
            invariant
                n == self.entries.len(),
                forall|j: int| 0 <= j < i ==> self.entries@[j].0@ != conn@,
        {
            if str_eq(self.entries[i].0.as_str(), conn) {
                return Some(i);
            }
        }
        None
    }

    /// Enrolls `conn` in `room`. A connection belongs to at most one room,
    /// so any earlier enrollment of `conn` is replaced.
    pub fn join(&mut self, conn: String, room: String)
        requires
            old(self).wf(),
        ensures
            final(self).wf(),
            final(self)@ == old(self)@.insert(conn@, room@),
    {
        let ghost s = self.entries@;
        match self.find(conn.as_str()) {
            Some(i) => {
                self.entries.set(i, (conn, room));
                proof {
                    lemma_entries_map_update(s, i as int, self.entries@[i as int]);
                    assert(self.entries@ =~= s.update(i as int, self.entries@[i as int]));
                    assert(entries_unique(self.entries@)) by {
                        assert(forall|j: int|
                            0 <= j < s.len() ==> self.entries@[j].0@ == s[j].0@);
                    }
                }
            }
            None => {
                self.entries.push((conn, room));
                proof {
                    lemma_entries_map_push(s, self.entries@[s.len() as int]);
                    assert(self.entries@ =~= s.push(self.entries@[s.len() as int]));
                }
            }
        }
    }

    /// The room `conn` is enrolled in, if any.
    pub fn room_of<'a>(&'a self, conn: &str) -> (r: Option<&'a String>)
        requires
            self.wf(),
        ensures
            match r {
                Some(room) => self@.contains_key(conn@) && room@ == self@[conn@],
                None => !self@.contains_key(conn@),
            },
    {
        proof {
            lemma_entries_map_contains(self.entries@, conn@);
        }
        match self.find(conn) {
            Some(i) => {
                proof {
                    lemma_entries_map_index(self.entries@, i as int);
                }
                Some(&self.entries[i].1)
            }
            None => None,
        }
    }

    /// The connections a broadcast to `room` reaches: exactly those enrolled
    /// in `room`, each once.
    pub fn recipients(&self, room: &str) -> (r: Vec<String>)
        requires
            self.wf(),
        ensures
            r.deep_view().no_duplicates(),
            forall|c: Seq<char>|
                #[trigger] r.deep_view().contains(c) <==> room_members(self@, room@).contains(c),
    {
        let mut r: Vec<String> = Vec::new();
        let n = self.entries.len();
        for i in 0..n
            invariant
                n == self.entries.len(),
                self.wf(),
                r.deep_view().no_duplicates(),
                forall|c: Seq<char>|
                    #[trigger] r.deep_view().contains(c) <==> exists|j: int|
                        0 <= j < i && self.entries@[j].0@ == c && self.entries@[j].1@ == room@,
        {
            let ghost prev = r.deep_view();
            if str_eq(self.entries[i].1.as_str(), room) {
                proof {
                    assert(!prev.contains(self.entries@[i as int].0@)) by {
                        if prev.contains(self.entries@[i as int].0@) {
                            let j = choose|j: int|
                                0 <= j < i && self.entries@[j].0@ == self.entries@[i as int].0@
                                    && self.entries@[j].1@ == room@;
                        }
                    }
                }
                r.push(self.entries[i].0.clone());
                proof {
                    assert(r.deep_view() =~= prev.push(self.entries@[i as int].0@));
                    assert(r.deep_view().no_duplicates());
                    assert forall|c: Seq<char>| #[trigger] r.deep_view().contains(c) implies
                        exists|j: int|
                            0 <= j < i + 1 && self.entries@[j].0@ == c && self.entries@[j].1@
                                == room@ by {
                        let idx = choose|idx: int|
                            0 <= idx < r.deep_view().len() && r.deep_view()[idx] == c;
                        if idx < prev.len() {
                            assert(prev.contains(c));
                        } else {
                            assert(self.entries@[i as int].0@ == c);
                        }
                    }
                    assert forall|c: Seq<char>|
                        (exists|j: int|
                            0 <= j < i + 1 && self.entries@[j].0@ == c && self.entries@[j].1@
                                == room@) implies #[trigger] r.deep_view().contains(c) by {
                        let j = choose|j: int|
                            0 <= j < i + 1 && self.entries@[j].0@ == c && self.entries@[j].1@
                                == room@;
                        if j < i {
                            assert(prev.contains(c));
                            let idx = choose|idx: int|
                                0 <= idx < prev.len() && prev[idx] == c;
                            assert(r.deep_view()[idx] == c);
                        } else {
                            assert(r.deep_view()[prev.len() as int] == c);
                        }
                    }
                }
            } else {
                proof {
                    assert forall|c: Seq<char>|
                        (exists|j: int|
                            0 <= j < i + 1 && self.entries@[j].0@ == c && self.entries@[j].1@
                                == room@) implies #[trigger] r.deep_view().contains(c) by {
                        let j = choose|j: int|
                            0 <= j < i + 1 && self.entries@[j].0@ == c && self.entries@[j].1@
                                == room@;
                        assert(j < i);
                    }
                }
            }
        }
        proof {
            assert forall|c: Seq<char>|
                #[trigger] r.deep_view().contains(c) implies room_members(self@, room@).contains(
                c,
            ) by {
                let j = choose|j: int|
                    0 <= j < n && self.entries@[j].0@ == c && self.entries@[j].1@ == room@;
                lemma_entries_map_index(self.entries@, j);
            }
            assert forall|c: Seq<char>| room_members(self@, room@).contains(c) implies #[trigger] r
                .deep_view()
                .contains(c) by {
                lemma_entries_map_contains(self.entries@, c);
                let j = choose|j: int| 0 <= j < n && self.entries@[j].0@ == c;
                lemma_entries_map_index(self.entries@, j);
            }
        }
        r
    }
}

/// Law: two different rooms share no recipient — a connection enrolled in
/// one room, or in none, never receives another room's broadcasts.
pub proof fn lemma_rooms_disjoint(m: Map<Seq<char>, Seq<char>>, r1: Seq<char>, r2: Seq<char>)
    requires
        r1 != r2,
    ensures
        room_members(m, r1).disjoint(room_members(m, r2)),
{
}

/// Law: a connection not enrolled in `room` is not among its members.
pub proof fn lemma_not_enrolled_not_member(
    m: Map<Seq<char>, Seq<char>>,
    conn: Seq<char>,
    room: Seq<char>,
)
    requires
        !m.contains_key(conn) || m[conn] != room,
    ensures
        !room_members(m, room).contains(conn),
{
}

} // verus!
