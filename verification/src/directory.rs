//! The directory of rooms and sessions: which sessions are registered, who
//! is in which room, and to whom a message goes. A session is registered by
//! its first join and stays so until it is removed. The directory decides;
//! handing a payload to a session's handle is left to the caller, who owns
//! the connections.

use vstd::prelude::*;
use crate::membership::DirectoryView;
use crate::membership::SessionView;
use crate::membership::vacate;
use crate::membership::without;
use crate::table::Table;
use crate::table::lemma_index_of_unique;
use crate::table::position;
use crate::table::texts;
use crate::wire::ServerEvent;
use crate::wire::ServerEventView;

verus! {

/// What the directory keeps of one registered session.
struct Session<H> {
    handle: H,
    room: Option<String>,
}

impl<H> View for Session<H> {
    type V = SessionView<H>;

    closed spec fn view(&self) -> SessionView<H> {
        SessionView {
            handle: self.handle,
            room: match self.room {
                Some(room) => Some(room@),
                None => None,
            },
        }
    }
}

/// One payload addressed to one session.
#[derive(Debug)]
pub struct Delivery<'a, H> {
    /// The recipient's handle.
    pub handle: &'a H,
    /// What the recipient is to be sent.
    pub payload: String,
}

/// The rooms and the registered sessions. `H` is the type of the handle
/// through which a session is sent its messages; the directory stores the
/// handles and never looks inside them.
pub struct Directory<H> {
    rooms: Table<Vec<String>>,
    sessions: Table<Session<H>>,
}

/// The member lists of `rooms`, as texts.
spec fn listing(rooms: Map<Seq<char>, Vec<String>>) -> Map<Seq<char>, Seq<Seq<char>>> {
    rooms.map_values(|members: Vec<String>| texts(members@))
}

/// The sessions of `sessions`, as the model has them.
spec fn register<H>(sessions: Map<Seq<char>, Session<H>>) -> Map<Seq<char>, SessionView<H>> {
    sessions.map_values(|session: Session<H>| session@)
}

impl<H> View for Directory<H> {
    type V = DirectoryView<H>;

    closed spec fn view(&self) -> DirectoryView<H> {
        DirectoryView { rooms: listing(self.rooms@), sessions: register(self.sessions@) }
    }
}

/// Takes `session` out of the member list of `room`, and drops the room if
/// nobody is left in it.
fn vacate_room(rooms: &mut Table<Vec<String>>, room: &String, session: &String)
    requires
        forall|r: Seq<char>| #[trigger]
            listing(old(rooms)@).dom().contains(r) ==> listing(old(rooms)@)[r].no_duplicates(),
    ensures
        listing(final(rooms)@) == vacate(listing(old(rooms)@), room@, session@),
{
    let ghost before = listing(rooms@);
    match rooms.remove(room) {
        Some(mut members) => {
            let ghost listed = texts(members@);
            assert(before.dom().contains(room@) && listed == before[room@]);
            match position(&members, session) {
                Some(i) => {
                    members.remove(i);
                    proof {
                        lemma_index_of_unique(listed, i as int);
                        assert(texts(members@) =~= without(listed, session@));
                    }
                },
                None => {},
            }
            if members.len() > 0 {
                rooms.insert(room.clone(), members);
            }
        },
        None => {},
    }
}

/// The room that `sessions` records for `session`.
fn recorded_room<H>(sessions: &Table<Session<H>>, session: &String) -> (room: Option<String>)
    ensures
        match room {
            Some(r) => register(sessions@).dom().contains(session@) && register(
                sessions@,
            )[session@].room == Some(r@),
            None => !register(sessions@).dom().contains(session@) || register(
                sessions@,
            )[session@].room.is_none(),
        },
{
    match sessions.get(session) {
        Some(entry) => match &entry.room {
            Some(room) => Some(room.clone()),
            None => None,
        },
        None => None,
    }
}

impl<H> Directory<H> {
    /// What holds of every directory there is: a room lists a session
    /// exactly when the session records that room.
    #[verifier::type_invariant]
    pub open spec fn inv(&self) -> bool {
        self@.consistent()
    }

    /// A directory without sessions and rooms.
    pub fn new() -> (directory: Self)
        ensures
            directory@ == DirectoryView::<H>::empty(),
            directory@.consistent(),
    {
        let rooms = Table::new();
        let sessions = Table::new();
        assert(listing(rooms@) =~= Map::empty());
        assert(register::<H>(sessions@) =~= Map::empty());
        Directory { rooms, sessions }
    }

    /// Takes the directory apart, leaving an empty one in its place. The
    /// directory is changed on its parts and then put together again, so
    /// that whoever can see it sees its two tables in agreement.
    fn take(&mut self) -> (parts: (Table<Vec<String>>, Table<Session<H>>))
        ensures
            old(self)@ == (DirectoryView {
                rooms: listing(parts.0@),
                sessions: register(parts.1@),
            }),
            old(self)@.consistent(),
    {
        proof {
            use_type_invariant(&*self);
        }
        let mut taken = Directory::new();
        core::mem::swap(self, &mut taken);
        let Directory { rooms, sessions } = taken;
        (rooms, sessions)
    }

    /// Puts the session `session_id` into `room` and makes `handle` its
    /// handle. A session that was in another room leaves that room first.
    pub fn join_room(&mut self, room: &str, session_id: &str, handle: H)
        ensures
            final(self)@ == old(self)@.join(room@, session_id@, handle),
            final(self)@.consistent(),
    {
        let (mut rooms, mut sessions) = self.take();
        let room = room.to_owned();
        let session = session_id.to_owned();
        let ghost after = old(self)@.join(room@, session@, handle);
        proof {
            old(self)@.lemma_join_consistent(room@, session@, handle);
        }
        let prior = recorded_room(&sessions, &session);
        let stays = match &prior {
            Some(p) => *p == room,
            None => false,
        };
        if !stays {
            if let Some(p) = prior {
                vacate_room(&mut rooms, &p, &session);
            }
            let ghost cleared = listing(rooms@);
            let mut members = match rooms.remove(&room) {
                Some(members) => members,
                None => Vec::new(),
            };
            members.push(session.clone());
            proof {
                let base = if cleared.dom().contains(room@) {
                    cleared[room@]
                } else {
                    Seq::empty()
                };
                assert(texts(members@) =~= base.push(session@));
            }
            rooms.insert(room.clone(), members);
        }
        sessions.insert(session, Session { handle, room: Some(room) });
        assert(listing(rooms@) =~= after.rooms);
        assert(register(sessions@) =~= after.sessions);
        *self = Directory { rooms, sessions };
    }

    /// Takes the session `session_id` out of `room`. The session stays
    /// registered. Nothing happens if it is not in that room.
    pub fn leave_room(&mut self, room: &str, session_id: &str)
        ensures
            final(self)@ == old(self)@.leave(room@, session_id@),
            final(self)@.consistent(),
    {
        let (mut rooms, mut sessions) = self.take();
        let room = room.to_owned();
        let session = session_id.to_owned();
        let ghost after = old(self)@.leave(room@, session@);
        proof {
            old(self)@.lemma_leave_consistent(room@, session@);
        }
        match sessions.remove(&session) {
            Some(entry) => {
                let Session { handle, room: current } = entry;
                let member = match &current {
                    Some(r) => *r == room,
                    None => false,
                };
                if member {
                    vacate_room(&mut rooms, &room, &session);
                    sessions.insert(session, Session { handle, room: None });
                } else {
                    sessions.insert(session, Session { handle, room: current });
                }
            },
            None => {},
        }
        assert(register(sessions@) =~= after.sessions);
        *self = Directory { rooms, sessions };
    }

    /// Forgets the session `session_id`: it is no longer registered and no
    /// longer a member of any room. Nothing happens if it is not registered.
    pub fn remove_session(&mut self, session_id: &str)
        ensures
            final(self)@ == old(self)@.remove(session_id@),
            final(self)@.consistent(),
    {
        let (mut rooms, mut sessions) = self.take();
        let session = session_id.to_owned();
        let ghost after = old(self)@.remove(session@);
        proof {
            old(self)@.lemma_remove_consistent(session@);
        }
        match sessions.remove(&session) {
            Some(entry) => {
                if let Some(room) = entry.room {
                    vacate_room(&mut rooms, &room, &session);
                }
            },
            None => {},
        }
        assert(register(sessions@) =~= after.sessions);
        *self = Directory { rooms, sessions };
    }

    /// Addresses `message` to every session that is in `room` now: one
    /// delivery for each member, in the members' order, each with the
    /// member's handle and a copy of the message. The number of recipients
    /// is the length of the result.
    pub fn broadcast<'a>(&'a self, room: &str, message: &str) -> (deliveries: Vec<Delivery<'a, H>>)
        ensures
            self@.consistent(),
            deliveries@.len() == self@.members(room@).len(),
            forall|i: int|
                0 <= i < deliveries@.len() ==> {
                    &&& *(#[trigger] deliveries@[i]).handle == self@.recipients(room@)[i]
                    &&& deliveries@[i].payload@ == message@
                },
    {
        proof {
            use_type_invariant(self);
        }
        let room = room.to_owned();
        let mut deliveries: Vec<Delivery<'a, H>> = Vec::new();
        if let Some(members) = self.rooms.get(&room) {
            let mut i: usize = 0;
            while i < members.len()
                invariant
                    self@.consistent(),
                    self.rooms@.dom().contains(room@),
                    *members == self.rooms@[room@],
                    i <= members@.len(),
                    deliveries@.len() == i,
                    forall|k: int|
                        0 <= k < i ==> {
                            &&& *(#[trigger] deliveries@[k]).handle == self@.recipients(room@)[k]
                            &&& deliveries@[k].payload@ == message@
                        },
                decreases members@.len() - i,
            {
                proof {
                    // Whoever the room lists is registered.
                    let member = self@.members(room@)[i as int];
                    assert(self@.lists(room@, member) && self@.places(member, room@));
                }
                if let Some(entry) = self.sessions.get(&members[i]) {
                    deliveries.push(Delivery { handle: &entry.handle, payload: message.to_owned() });
                }
                i += 1;
            }
        }
        deliveries
    }

    /// Addresses `message` to the session `target`, if it is registered. An
    /// unknown target gives `None`: the message is dropped.
    pub fn relay<'a>(&'a self, target: &str, message: &str) -> (delivery: Option<Delivery<'a, H>>)
        ensures
            match delivery {
                Some(d) => {
                    &&& self@.sessions.dom().contains(target@)
                    &&& *d.handle == self@.sessions[target@].handle
                    &&& d.payload@ == message@
                },
                None => !self@.sessions.dom().contains(target@),
            },
    {
        let target = target.to_owned();
        match self.sessions.get(&target) {
            Some(entry) => Some(Delivery { handle: &entry.handle, payload: message.to_owned() }),
            None => None,
        }
    }

    /// The ids of the sessions that are in `room` now, oldest member first.
    pub fn members(&self, room: &str) -> (ids: Vec<String>)
        ensures
            texts(ids@) == self@.members(room@),
    {
        let room = room.to_owned();
        let mut ids: Vec<String> = Vec::new();
        if let Some(members) = self.rooms.get(&room) {
            let mut i: usize = 0;
            while i < members.len()
                invariant
                    i <= members@.len(),
                    ids@.len() == i,
                    forall|k: int| 0 <= k < i ==> ids@[k]@ == members@[k]@,
                decreases members@.len() - i,
            {
                ids.push(members[i].clone());
                i += 1;
            }
        }
        ids
    }

    /// The roster of `room` as an event for its members.
    pub fn roster(&self, room: &str) -> (event: ServerEvent)
        ensures
            event@ == (ServerEventView::RoomUsers { room: room@, users: self@.members(room@) }),
    {
        ServerEvent::RoomUsers { room: room.to_owned(), users: self.members(room) }
    }

    /// The room that the session `session_id` is in; `None` if it is in no
    /// room or not registered.
    pub fn current_room(&self, session_id: &str) -> (room: Option<String>)
        ensures
            match room {
                Some(r) => self@.room_of(session_id@) == Some(r@),
                None => self@.room_of(session_id@).is_none(),
            },
    {
        let session = session_id.to_owned();
        recorded_room(&self.sessions, &session)
    }

    /// Whether the session `session_id` is registered.
    pub fn is_registered(&self, session_id: &str) -> (registered: bool)
        ensures
            registered == self@.sessions.dom().contains(session_id@),
    {
        let session = session_id.to_owned();
        self.sessions.get(&session).is_some()
    }
}

} // verus!
