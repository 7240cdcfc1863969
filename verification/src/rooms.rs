//! The rendezvous table: each room holds at most one peer waiting for a
//! partner, with the handle by which that peer is told who arrived.

use vstd::prelude::*;
use crate::registration::{Registration, RegistrationView};

verus! {

/// The waiting peers, one per room, each with the handle that reaches it.
pub struct Rooms<W> {
    waiting: Vec<(Registration, W)>,
}

/// What an arrival in a room comes to.
pub enum Arrival<W> {
    /// Someone was waiting in the room: it is taken out of the table, and
    /// the newcomer is to be sent to it through `notify`.
    Paired { first: Registration, notify: W },
    /// The room was free: the newcomer now waits in it.
    Waiting,
    /// A peer with the same id already waits in the room; nothing changed.
    DuplicateId,
}

/// The table that a list of waiting entries stands for, the later entry
/// winning for a room named twice.
pub open spec fn table_of<W>(s: Seq<(Registration, W)>) -> Map<Seq<char>, (RegistrationView, W)>
    decreases s.len(),
{
    if s.len() == 0 {
        Map::empty()
    } else {
        table_of(s.drop_last()).insert(s.last().0.room@, (s.last().0@, s.last().1))
    }
}

/// No room is named twice.
pub open spec fn distinct_rooms<W>(s: Seq<(Registration, W)>) -> bool {
    forall|i: int, j: int|
        0 <= i < s.len() && 0 <= j < s.len() && i != j ==> #[trigger] s[i].0.room@ != #[trigger] s[j].0.room@
}

/// An arrival as plain values.
pub enum Outcome<W> {
    Paired(RegistrationView, W),
    Waiting,
    DuplicateId,
}

impl<W> Arrival<W> {
    pub open spec fn outcome(self) -> Outcome<W> {
        match self {
            Arrival::Paired { first, notify } => Outcome::Paired(first@, notify),
            Arrival::Waiting => Outcome::Waiting,
            Arrival::DuplicateId => Outcome::DuplicateId,
        }
    }
}

/// Every waiting peer is filed under its own room.
pub open spec fn filed_by_room<W>(t: Map<Seq<char>, (RegistrationView, W)>) -> bool {
    forall|k: Seq<char>| #[trigger] t.contains_key(k) ==> t[k].0.room == k
}

/// The table and the outcome after `me` arrives, reachable through
/// `notify`: a free room takes the newcomer; a room whose waiting peer has
/// another id is emptied and that peer is handed over; a room whose waiting
/// peer has the same id refuses the newcomer and stays as it was.
pub open spec fn after_arrival<W>(
    t: Map<Seq<char>, (RegistrationView, W)>,
    me: RegistrationView,
    notify: W,
) -> (Map<Seq<char>, (RegistrationView, W)>, Outcome<W>) {
    if !t.contains_key(me.room) {
        (t.insert(me.room, (me, notify)), Outcome::Waiting)
    } else if t[me.room].0.peer_id == me.peer_id {
        (t, Outcome::DuplicateId)
    } else {
        (t.remove(me.room), Outcome::Paired(t[me.room].0, t[me.room].1))
    }
}

/// Each entry of a list with distinct rooms is what the table holds for its
/// room, and the table holds nothing else.
proof fn lemma_table_of<W>(s: Seq<(Registration, W)>)
    requires
        distinct_rooms(s),
    ensures
        forall|i: int| 0 <= i < s.len() ==> #[trigger] table_of(s).contains_key(s[i].0.room@)
            && table_of(s)[s[i].0.room@] == (s[i].0@, s[i].1),
        forall|k: Seq<char>| #[trigger] table_of(s).contains_key(k) ==> exists|i: int|
            0 <= i < s.len() && s[i].0.room@ == k,
    decreases s.len(),
{
    if s.len() > 0 {
        let t = s.drop_last();
        assert(distinct_rooms(t)) by {
            assert forall|i: int, j: int|
                0 <= i < t.len() && 0 <= j < t.len() && i != j implies #[trigger] t[i].0.room@ != #[trigger] t[j].0.room@ by {
                assert(t[i] == s[i] && t[j] == s[j]);
            }
        }
        lemma_table_of(t);
        assert(table_of(s) == table_of(t).insert(s.last().0.room@, (s.last().0@, s.last().1)));
        assert forall|i: int| 0 <= i < s.len() implies #[trigger] table_of(s).contains_key(s[i].0.room@)
            && table_of(s)[s[i].0.room@] == (s[i].0@, s[i].1) by {
            if i < s.len() - 1 {
                assert(t[i] == s[i]);
                assert(s[i].0.room@ != s[s.len() - 1].0.room@);
                assert(table_of(t).contains_key(t[i].0.room@));
            }
        }
        assert forall|k: Seq<char>| #[trigger] table_of(s).contains_key(k) implies exists|i: int|
            0 <= i < s.len() && s[i].0.room@ == k by {
            if k != s.last().0.room@ {
                assert(table_of(t).contains_key(k));
                let i = choose|i: int| 0 <= i < t.len() && t[i].0.room@ == k;
                assert(s[i] == t[i]);
            } else {
                assert(s[s.len() - 1].0.room@ == k);
            }
        }
    }
}

/// Taking one entry out of a list with distinct rooms keeps the rooms
/// distinct and takes that entry's room out of the table.
proof fn lemma_remove_entry<W>(s: Seq<(Registration, W)>, i: int)
    requires
        distinct_rooms(s),
        0 <= i < s.len(),
    ensures
        distinct_rooms(s.remove(i)),
        table_of(s.remove(i)) == table_of(s).remove(s[i].0.room@),
{
    let r = s.remove(i);
    assert forall|a: int, b: int|
        0 <= a < r.len() && 0 <= b < r.len() && a != b implies #[trigger] r[a].0.room@ != #[trigger] r[b].0.room@ by {
        let a2 = if a < i { a } else { a + 1 };
        let b2 = if b < i { b } else { b + 1 };
        assert(r[a] == s[a2] && r[b] == s[b2]);
    }
    lemma_table_of(s);
    lemma_table_of(r);
    let k = s[i].0.room@;
    assert forall|key: Seq<char>| #[trigger] table_of(r).contains_key(key)
        implies table_of(s).remove(k).contains_key(key) && table_of(r)[key] == table_of(s).remove(k)[key] by {
        let j = choose|j: int| 0 <= j < r.len() && r[j].0.room@ == key;
        let j2 = if j < i { j } else { j + 1 };
        assert(r[j] == s[j2]);
        assert(j2 != i);
        assert(table_of(s).contains_key(s[j2].0.room@));
        assert(table_of(r).contains_key(r[j].0.room@));
    }
    assert forall|key: Seq<char>| #[trigger] table_of(s).remove(k).contains_key(key)
        implies table_of(r).contains_key(key) by {
        assert(table_of(s).contains_key(key));
        let j = choose|j: int| 0 <= j < s.len() && s[j].0.room@ == key;
        assert(j != i);
        let j2 = if j < i { j } else { j - 1 };
        assert(r[j2] == s[j]);
        assert(table_of(r).contains_key(r[j2].0.room@));
    }
    assert(table_of(r) =~= table_of(s).remove(k));
}

impl<W> View for Rooms<W> {
    type V = Map<Seq<char>, (RegistrationView, W)>;

    closed spec fn view(&self) -> Map<Seq<char>, (RegistrationView, W)> {
        table_of(self.waiting@)
    }
}

impl<W> Rooms<W> {
    /// The table is well formed: no room is named twice, and each waiting
    /// peer is filed under its own room.
    pub closed spec fn wf(&self) -> bool {
        distinct_rooms(self.waiting@)
    }

    /// A table with no one waiting.
    pub fn new() -> (r: Rooms<W>)
        ensures
            r.wf(),
            filed_by_room(r@),
            r@ == Map::<Seq<char>, (RegistrationView, W)>::empty(),
    {
        Rooms { waiting: Vec::new() }
    }

    /// Where `room` stands in the list of waiting entries.
    fn find(&self, room: &String) -> (r: Option<usize>)
        requires
            self.wf(),
        ensures
            r matches Some(i) ==> i < self.waiting@.len() && self.waiting@[i as int].0.room@ == room@,
            r is None ==> forall|i: int| 0 <= i < self.waiting@.len() ==> self.waiting@[i].0.room@ != room@,
    {
        let mut i: usize = 0;
        while i < self.waiting.len()
            invariant
                i <= self.waiting@.len(),
                forall|j: int| 0 <= j < i ==> self.waiting@[j].0.room@ != room@,
            decreases self.waiting@.len() - i,
        {
            if self.waiting[i].0.room == *room {
                return Some(i);
            }
            i = i + 1;
        }
        None
    }

    /// A peer arrives in `me.room`, reachable through `notify`. If another
    /// peer waits there, that peer leaves the table and is returned with its
    /// handle; if the waiting peer has the same id, the arrival is refused and
    /// the table is unchanged; if the room is free, the newcomer waits in it.
    pub fn arrive(&mut self, me: &Registration, notify: W) -> (a: Arrival<W>)
        requires
            old(self).wf(),
        ensures
            final(self).wf(),
            filed_by_room(final(self)@),
            (final(self)@, a.outcome()) == after_arrival(old(self)@, me@, notify),
    {
        proof { lemma_table_of(self.waiting@); }
        let ghost old_waiting = self.waiting@;
        match self.find(&me.room) {
            Some(i) => {
                if self.waiting[i].0.peer_id == me.peer_id {
                    Arrival::DuplicateId
                } else {
                    let (first, handle) = self.waiting.remove(i);
                    proof { lemma_remove_entry(old_waiting, i as int); }
                    Arrival::Paired { first, notify: handle }
                }
            },
            None => {
                let entry = (me.duplicate(), notify);
                self.waiting.push(entry);
                proof {
                    let s = self.waiting@;
                    assert(s.drop_last() =~= old_waiting);
                    assert(distinct_rooms(s)) by {
                        assert forall|a: int, b: int|
                            0 <= a < s.len() && 0 <= b < s.len() && a != b implies #[trigger] s[a].0.room@
                            != #[trigger] s[b].0.room@ by {
                            if a < old_waiting.len() {
                                assert(s[a] == old_waiting[a]);
                            }
                            if b < old_waiting.len() {
                                assert(s[b] == old_waiting[b]);
                            }
                        }
                    }
                }
                Arrival::Waiting
            },
        }
    }

    /// Empties `room`, whoever waits in it.
    pub fn leave(&mut self, room: &String)
        requires
            old(self).wf(),
        ensures
            final(self).wf(),
            filed_by_room(final(self)@),
            final(self)@ == old(self)@.remove(room@),
    {
        proof { lemma_table_of(self.waiting@); }
        let ghost old_waiting = self.waiting@;
        match self.find(room) {
            Some(i) => {
                let _ = self.waiting.remove(i);
                proof { lemma_remove_entry(old_waiting, i as int); }
            },
            None => {
                proof {
                    assert(!table_of(old_waiting).contains_key(room@));
                    assert(table_of(old_waiting).remove(room@) =~= table_of(old_waiting));
                }
            },
        }
    }
}

/// Two peers with different ids meet in a free room: the first one waits;
/// the second is handed the first one's registration and handle, through
/// which it is announced in turn; and the room is free again.
pub proof fn law_two_peers_meet<W>(
    t: Map<Seq<char>, (RegistrationView, W)>,
    first: RegistrationView,
    first_notify: W,
    second: RegistrationView,
    second_notify: W,
)
    requires
        !t.contains_key(first.room),
        second.room == first.room,
        second.peer_id != first.peer_id,
    ensures
        after_arrival(t, first, first_notify).1 == Outcome::<W>::Waiting,
        after_arrival(after_arrival(t, first, first_notify).0, second, second_notify)
            == (t, Outcome::Paired(first, first_notify)),
{
    let t1 = t.insert(first.room, (first, first_notify));
    assert(t1.remove(first.room) =~= t);
}

/// A peer whose id already waits in the room is refused, and the one
/// waiting keeps its place.
pub proof fn law_repeated_id_refused<W>(
    t: Map<Seq<char>, (RegistrationView, W)>,
    first: RegistrationView,
    first_notify: W,
    again: RegistrationView,
    again_notify: W,
)
    requires
        !t.contains_key(first.room),
        again.room == first.room,
        again.peer_id == first.peer_id,
    ensures
        after_arrival(after_arrival(t, first, first_notify).0, again, again_notify)
            == (t.insert(first.room, (first, first_notify)), Outcome::<W>::DuplicateId),
{
}

/// Leaving a room undoes the arrival that made someone wait in it.
pub proof fn law_leave_undoes_waiting<W>(
    t: Map<Seq<char>, (RegistrationView, W)>,
    me: RegistrationView,
    notify: W,
)
    requires
        !t.contains_key(me.room),
    ensures
        after_arrival(t, me, notify).0.remove(me.room) == t,
{
    assert(t.insert(me.room, (me, notify)).remove(me.room) =~= t);
}

/// An arrival touches no room but its own.
pub proof fn law_other_rooms_untouched<W>(
    t: Map<Seq<char>, (RegistrationView, W)>,
    me: RegistrationView,
    notify: W,
    other: Seq<char>,
)
    requires
        other != me.room,
    ensures
        after_arrival(t, me, notify).0.contains_key(other) == t.contains_key(other),
        t.contains_key(other) ==> after_arrival(t, me, notify).0[other] == t[other],
{
}

/// A peer arriving in a free room waits there with its handle.
pub proof fn law_free_room_waits<W>(t: Map<Seq<char>, (RegistrationView, W)>, me: RegistrationView, notify: W)
    requires
        !t.contains_key(me.room),
    ensures
        after_arrival(t, me, notify).1 == Outcome::<W>::Waiting,
        after_arrival(t, me, notify).0.contains_key(me.room),
        after_arrival(t, me, notify).0[me.room] == (me, notify),
        after_arrival(t, me, notify).0.dom() == t.dom().insert(me.room),
{
}

/// A peer arriving where another id waits is handed exactly the waiting
/// peer's registration and handle, and leaves the room empty.
pub proof fn law_pairing_hands_over_the_waiting_peer<W>(
    t: Map<Seq<char>, (RegistrationView, W)>,
    me: RegistrationView,
    notify: W,
)
    requires
        t.contains_key(me.room),
        t[me.room].0.peer_id != me.peer_id,
    ensures
        after_arrival(t, me, notify).1 == Outcome::Paired(t[me.room].0, t[me.room].1),
        !after_arrival(t, me, notify).0.contains_key(me.room),
        after_arrival(t, me, notify).0.dom() == t.dom().remove(me.room),
{
}

} // verus!
