//! The directory as mathematics: which sessions are registered, which room
//! each of them is in, and what joining, leaving and removal do to that.
//! The executable directory is specified against this model, and the laws
//! at the end of the file are proved of it.

use vstd::prelude::*;
use crate::table::lemma_push_unique;
use crate::table::lemma_remove_unique;

verus! {

/// What the directory knows of one registered session.
pub struct SessionView<H> {
    /// Where messages for the session are handed over.
    pub handle: H,
    /// The room the session is in, if it is in one.
    pub room: Option<Seq<char>>,
}

/// The state of the directory.
pub struct DirectoryView<H> {
    /// The members of each occupied room, in the order in which they joined.
    pub rooms: Map<Seq<char>, Seq<Seq<char>>>,
    /// The registered sessions, by id.
    pub sessions: Map<Seq<char>, SessionView<H>>,
}

/// `list` without `session`.
pub open spec fn without(list: Seq<Seq<char>>, session: Seq<char>) -> Seq<Seq<char>> {
    if list.contains(session) {
        list.remove(list.index_of(session))
    } else {
        list
    }
}

/// `rooms` after `session` has been taken out of `room`. A room that is left
/// without members disappears.
pub open spec fn vacate(
    rooms: Map<Seq<char>, Seq<Seq<char>>>,
    room: Seq<char>,
    session: Seq<char>,
) -> Map<Seq<char>, Seq<Seq<char>>> {
    if rooms.dom().contains(room) {
        let rest = without(rooms[room], session);
        if rest.len() == 0 {
            rooms.remove(room)
        } else {
            rooms.insert(room, rest)
        }
    } else {
        rooms
    }
}

impl<H> DirectoryView<H> {
    /// No session is registered and no room is occupied.
    pub open spec fn empty() -> Self {
        DirectoryView { rooms: Map::empty(), sessions: Map::empty() }
    }

    /// The members of `room`, oldest first; empty when nobody is in it.
    pub open spec fn members(self, room: Seq<char>) -> Seq<Seq<char>> {
        if self.rooms.dom().contains(room) {
            self.rooms[room]
        } else {
            Seq::empty()
        }
    }

    /// Whether `session` is listed among the members of `room`.
    pub open spec fn lists(self, room: Seq<char>, session: Seq<char>) -> bool {
        self.rooms.dom().contains(room) && self.rooms[room].contains(session)
    }

    /// Whether `session` is registered and records `room` as the room it is in.
    pub open spec fn places(self, session: Seq<char>, room: Seq<char>) -> bool {
        self.sessions.dom().contains(session) && self.sessions[session].room == Some(room)
    }

    /// The room that `session` is in, if it is registered and in one.
    pub open spec fn room_of(self, session: Seq<char>) -> Option<Seq<char>> {
        if self.sessions.dom().contains(session) {
            self.sessions[session].room
        } else {
            None
        }
    }

    /// The two maps agree: a room lists a session exactly when the session
    /// records that room. Besides, no room is listed without members and no
    /// member is listed twice.
    pub open spec fn consistent(self) -> bool {
        &&& forall|room: Seq<char>| #[trigger]
            self.rooms.dom().contains(room) ==> self.rooms[room].len() > 0
                && self.rooms[room].no_duplicates()
        &&& forall|room: Seq<char>, session: Seq<char>|
            #![trigger self.lists(room, session)]
            #![trigger self.places(session, room)]
            self.lists(room, session) <==> self.places(session, room)
    }

    /// The state after `session` has joined `room` with `handle`. A session
    /// that was in another room leaves that one first; one that is in `room`
    /// already keeps its place. Either way `handle` becomes its handle.
    pub open spec fn join(self, room: Seq<char>, session: Seq<char>, handle: H) -> Self {
        let entry = SessionView { handle, room: Some(room) };
        if self.room_of(session) == Some(room) {
            DirectoryView { rooms: self.rooms, sessions: self.sessions.insert(session, entry) }
        } else {
            let cleared = match self.room_of(session) {
                Some(prior) => vacate(self.rooms, prior, session),
                None => self.rooms,
            };
            let joined = (if cleared.dom().contains(room) {
                cleared[room]
            } else {
                Seq::empty()
            }).push(session);
            DirectoryView {
                rooms: cleared.insert(room, joined),
                sessions: self.sessions.insert(session, entry),
            }
        }
    }

    /// The state after `session` has been asked to leave `room`: if it is in
    /// that room it is taken out and stays registered without a room;
    /// otherwise nothing changes.
    pub open spec fn leave(self, room: Seq<char>, session: Seq<char>) -> Self {
        if self.room_of(session) == Some(room) {
            DirectoryView {
                rooms: vacate(self.rooms, room, session),
                sessions: self.sessions.insert(
                    session,
                    SessionView { handle: self.sessions[session].handle, room: None },
                ),
            }
        } else {
            self
        }
    }

    /// The state after `session` has been removed: it is gone from the
    /// sessions and from the room it was in. Nothing changes if it was not
    /// registered.
    pub open spec fn remove(self, session: Seq<char>) -> Self {
        if self.sessions.dom().contains(session) {
            DirectoryView {
                rooms: match self.sessions[session].room {
                    Some(room) => vacate(self.rooms, room, session),
                    None => self.rooms,
                },
                sessions: self.sessions.remove(session),
            }
        } else {
            self
        }
    }

    /// The handles that a broadcast to `room` is handed to: one for each
    /// member, in the members' order.
    pub open spec fn recipients(self, room: Seq<char>) -> Seq<H> {
        Seq::new(self.members(room).len(), |i: int| self.sessions[self.members(room)[i]].handle)
    }
}

/// Taking a member out of a list without duplicates leaves exactly the
/// other members, still without duplicates.
pub proof fn lemma_without(list: Seq<Seq<char>>, session: Seq<char>)
    requires
        list.no_duplicates(),
    ensures
        without(list, session).no_duplicates(),
        forall|other: Seq<char>|
            without(list, session).contains(other) <==> (list.contains(other) && other != session),
{
    if list.contains(session) {
        lemma_remove_unique(list, list.index_of(session));
    }
}

/// What `vacate` does when every room has members and lists none twice: the
/// rooms are still so, and a room lists a session afterwards exactly when it
/// did before and it is not the session that was taken out of that room.
pub proof fn lemma_vacate(
    rooms: Map<Seq<char>, Seq<Seq<char>>>,
    room: Seq<char>,
    session: Seq<char>,
)
    requires
        forall|r: Seq<char>| #[trigger]
            rooms.dom().contains(r) ==> rooms[r].len() > 0 && rooms[r].no_duplicates(),
    ensures
        forall|r: Seq<char>| #[trigger]
            vacate(rooms, room, session).dom().contains(r) ==> vacate(rooms, room, session)[r].len()
                > 0 && vacate(rooms, room, session)[r].no_duplicates(),
        forall|r: Seq<char>, s: Seq<char>|
            (vacate(rooms, room, session).dom().contains(r) && #[trigger] vacate(
                rooms,
                room,
                session,
            )[r].contains(s)) <==> (rooms.dom().contains(r) && rooms[r].contains(s) && !(r == room
                && s == session)),
{
    if rooms.dom().contains(room) {
        let rest = without(rooms[room], session);
        let after = vacate(rooms, room, session);
        lemma_without(rooms[room], session);
        assert forall|r: Seq<char>, s: Seq<char>|
            (after.dom().contains(r) && #[trigger] after[r].contains(s)) <==> (rooms.dom().contains(
                r,
            ) && rooms[r].contains(s) && !(r == room && s == session)) by {
            if r == room && rest.len() == 0 && rest.contains(s) {
                // An empty list contains nothing.
                assert(0 <= rest.index_of(s) < rest.len());
            }
        }
    }
}

impl<H> DirectoryView<H> {
    /// The empty directory is consistent.
    pub proof fn lemma_empty_consistent()
        ensures
            Self::empty().consistent(),
    {
    }

    /// Joining keeps the directory consistent.
    pub proof fn lemma_join_consistent(self, room: Seq<char>, session: Seq<char>, handle: H)
        requires
            self.consistent(),
        ensures
            self.join(room, session, handle).consistent(),
    {
        let after = self.join(room, session, handle);
        if self.room_of(session) == Some(room) {
            // Only the handle changes.
            assert forall|r: Seq<char>, s: Seq<char>|
                after.lists(r, s) <==> after.places(s, r) by {
                assert(self.lists(r, s) <==> self.places(s, r));
            }
        } else {
            let cleared = match self.room_of(session) {
                Some(prior) => vacate(self.rooms, prior, session),
                None => self.rooms,
            };
            match self.room_of(session) {
                Some(prior) => lemma_vacate(self.rooms, prior, session),
                None => {},
            }
            // The session is in no room of `cleared`; every other listing is as before.
            assert forall|r: Seq<char>, s: Seq<char>|
                (cleared.dom().contains(r) && #[trigger] cleared[r].contains(s)) <==> (self.lists(
                    r,
                    s,
                ) && s != session) by {
                assert(self.lists(r, s) <==> self.places(s, r));
            }
            let base = if cleared.dom().contains(room) {
                cleared[room]
            } else {
                Seq::empty()
            };
            lemma_push_unique(base, session);
            assert forall|r: Seq<char>, s: Seq<char>|
                after.lists(r, s) <==> after.places(s, r) by {
                assert(self.lists(r, s) <==> self.places(s, r));
                if r != room && after.rooms.dom().contains(r) {
                    assert(cleared[r].contains(s) <==> (self.lists(r, s) && s != session));
                }
            }
        }
    }

    /// Leaving keeps the directory consistent.
    pub proof fn lemma_leave_consistent(self, room: Seq<char>, session: Seq<char>)
        requires
            self.consistent(),
        ensures
            self.leave(room, session).consistent(),
    {
        let after = self.leave(room, session);
        if self.room_of(session) == Some(room) {
            lemma_vacate(self.rooms, room, session);
            assert forall|r: Seq<char>, s: Seq<char>|
                after.lists(r, s) <==> after.places(s, r) by {
                assert(self.lists(r, s) <==> self.places(s, r));
                if after.rooms.dom().contains(r) {
                    assert(after.rooms[r].contains(s) <==> (self.lists(r, s) && !(r == room && s
                        == session)));
                }
            }
        }
    }

    /// Removing a session keeps the directory consistent.
    pub proof fn lemma_remove_consistent(self, session: Seq<char>)
        requires
            self.consistent(),
        ensures
            self.remove(session).consistent(),
    {
        let after = self.remove(session);
        if self.sessions.dom().contains(session) {
            match self.sessions[session].room {
                Some(room) => lemma_vacate(self.rooms, room, session),
                None => {},
            }
            assert forall|r: Seq<char>, s: Seq<char>|
                after.lists(r, s) <==> after.places(s, r) by {
                assert(self.lists(r, s) <==> self.places(s, r));
                if after.rooms.dom().contains(r) {
                    assert(after.rooms[r].contains(s) <==> (self.lists(r, s) && s != session));
                }
            }
        }
    }

    /// In a consistent directory a session is in one room at most.
    pub proof fn lemma_one_room_at_most(self, first: Seq<char>, second: Seq<char>, session: Seq<char>)
        requires
            self.consistent(),
            self.members(first).contains(session),
            self.members(second).contains(session),
        ensures
            first == second,
    {
        assert(self.lists(first, session) && self.lists(second, session));
        assert(self.places(session, first) && self.places(session, second));
    }

    /// A broadcast to a room goes to every member of the room, once, and to
    /// nobody else: the recipients are the handles of the room's members,
    /// no member is listed twice, and the members are the sessions that are
    /// in this room.
    pub proof fn lemma_broadcast_reaches_members_only(self, room: Seq<char>)
        requires
            self.consistent(),
        ensures
            self.recipients(room).len() == self.members(room).len(),
            self.members(room).no_duplicates(),
            forall|i: int|
                0 <= i < self.members(room).len() ==> self.recipients(room)[i]
                    == self.sessions[#[trigger] self.members(room)[i]].handle,
            forall|session: Seq<char>|
                #[trigger] self.members(room).contains(session) <==> self.room_of(session) == Some(
                    room,
                ),
    {
        assert forall|session: Seq<char>| #[trigger]
            self.members(room).contains(session) <==> self.room_of(session) == Some(room) by {
            assert(self.lists(room, session) <==> self.places(session, room));
        }
    }

    /// After a join the session is a member of the room it joined and of no
    /// other, and the membership of every other session is as it was.
    pub proof fn lemma_join_members(self, room: Seq<char>, session: Seq<char>, handle: H)
        requires
            self.consistent(),
        ensures
            self.join(room, session, handle).members(room).contains(session),
            self.join(room, session, handle).room_of(session) == Some(room),
            self.join(room, session, handle).sessions[session].handle == handle,
            forall|r: Seq<char>|
                r != room ==> !(#[trigger] self.join(room, session, handle).members(r)).contains(
                    session,
                ),
            forall|r: Seq<char>, other: Seq<char>|
                other != session ==> ((#[trigger] self.join(room, session, handle).members(
                    r,
                ).contains(other)) <==> self.members(r).contains(other)),
    {
        let after = self.join(room, session, handle);
        self.lemma_join_consistent(room, session, handle);
        assert(after.places(session, room) && after.lists(room, session));
        assert forall|r: Seq<char>| r != room implies !(#[trigger] after.members(r)).contains(
            session,
        ) by {
            assert(after.lists(r, session) <==> after.places(session, r));
        }
        assert forall|r: Seq<char>, other: Seq<char>| other != session implies ((
        #[trigger] after.members(r).contains(other)) <==> self.members(r).contains(other)) by {
            assert(after.lists(r, other) <==> after.places(other, r));
            assert(self.lists(r, other) <==> self.places(other, r));
        }
    }

    /// A session that joins a second room is switched: it is taken out of
    /// the room it was in and put into the new one, and is never in both.
    pub proof fn lemma_rejoin_switches(
        self,
        from: Seq<char>,
        to: Seq<char>,
        session: Seq<char>,
        handle: H,
    )
        requires
            self.consistent(),
            self.members(from).contains(session),
            from != to,
        ensures
            !self.join(to, session, handle).members(from).contains(session),
            self.join(to, session, handle).members(to).contains(session),
            forall|r: Seq<char>|
                (#[trigger] self.join(to, session, handle).members(r)).contains(session) ==> r
                    == to,
    {
        self.lemma_join_members(to, session, handle);
    }

    /// Once a session has left a room it is not among the room's members,
    /// to whom a broadcast goes. Every other session's membership is as it
    /// was.
    pub proof fn lemma_leave_stops_delivery(self, room: Seq<char>, session: Seq<char>)
        requires
            self.consistent(),
        ensures
            !self.leave(room, session).members(room).contains(session),
            forall|r: Seq<char>, other: Seq<char>|
                other != session ==> ((#[trigger] self.leave(room, session).members(r).contains(
                    other,
                )) <==> self.members(r).contains(other)),
    {
        let after = self.leave(room, session);
        self.lemma_leave_consistent(room, session);
        assert(after.lists(room, session) <==> after.places(session, room));
        assert forall|r: Seq<char>, other: Seq<char>| other != session implies ((
        #[trigger] after.members(r).contains(other)) <==> self.members(r).contains(other)) by {
            assert(after.lists(r, other) <==> after.places(other, r));
            assert(self.lists(r, other) <==> self.places(other, r));
        }
    }

    /// Leaving a room twice in a row is leaving it once.
    pub proof fn lemma_leave_idempotent(self, room: Seq<char>, session: Seq<char>)
        ensures
            self.leave(room, session).leave(room, session) == self.leave(room, session),
    {
    }

    /// Leaving a room that the session is not a member of changes nothing.
    pub proof fn lemma_leave_when_absent(self, room: Seq<char>, session: Seq<char>)
        requires
            self.consistent(),
            !self.members(room).contains(session),
        ensures
            self.leave(room, session) == self,
    {
        assert(self.lists(room, session) <==> self.places(session, room));
    }

    /// A session that has been removed is known nowhere: it is not
    /// registered, so nothing is relayed to it, and it is a member of no
    /// room, so no broadcast reaches it. Every other session stays as it
    /// was.
    pub proof fn lemma_remove_forgets(self, session: Seq<char>)
        requires
            self.consistent(),
        ensures
            !self.remove(session).sessions.dom().contains(session),
            forall|r: Seq<char>| !(#[trigger] self.remove(session).members(r)).contains(session),
            forall|other: Seq<char>|
                other != session ==> (#[trigger] self.remove(session).sessions.dom().contains(other)
                    <==> self.sessions.dom().contains(other)),
            forall|r: Seq<char>, other: Seq<char>|
                other != session ==> ((#[trigger] self.remove(session).members(r).contains(other))
                    <==> self.members(r).contains(other)),
    {
        let after = self.remove(session);
        self.lemma_remove_consistent(session);
        assert forall|r: Seq<char>| !(#[trigger] after.members(r)).contains(session) by {
            assert(after.lists(r, session) <==> after.places(session, r));
        }
        assert forall|r: Seq<char>, other: Seq<char>| other != session implies ((
        #[trigger] after.members(r).contains(other)) <==> self.members(r).contains(other)) by {
            assert(after.lists(r, other) <==> after.places(other, r));
            assert(self.lists(r, other) <==> self.places(other, r));
        }
    }

    /// Removing a session twice is removing it once.
    pub proof fn lemma_remove_idempotent(self, session: Seq<char>)
        ensures
            self.remove(session).remove(session) == self.remove(session),
    {
    }
}

} // verus!
