//! One connection's side of the protocol: what state the connection is in,
//! and what each thing that arrives on it changes and asks for. The state
//! machine decides; carrying out what it asks for (a reply on the
//! connection, a call into the directory) is left to the caller.

use vstd::prelude::*;
use crate::clock::now_millis;
use crate::wire::ClientEvent;
use crate::wire::ClientEventView;
use crate::wire::ServerEvent;
use crate::wire::ServerEventView;

verus! {

/// Where a connection stands.
#[derive(Clone, Copy, Debug, PartialEq, Eq, Structural)]
pub enum Phase {
    /// Open, and in no room.
    Connected,
    /// Open, and in a room.
    Joined,
    /// Over. Nothing that arrives after this has any effect.
    Closed,
}

/// What arrives on a connection.
#[derive(Debug, PartialEq, Eq)]
pub enum Inbound {
    /// An event that could be read.
    Event(ClientEvent),
    /// Text that is no event.
    Malformed,
    /// The end of the connection, for whatever reason.
    Closed,
}

/// What the caller is to do after something has arrived.
#[derive(Debug, PartialEq, Eq)]
pub enum Action {
    /// Nothing.
    Nothing,
    /// Send `event` back on this connection.
    Reply { event: ServerEvent },
    /// Put this session into `room` in the directory.
    Join { room: String },
    /// Take this session out of `room` in the directory.
    Leave { room: String },
    /// Send `event` to every member of `room`.
    Broadcast { room: String, event: ServerEvent },
    /// Send `event` to the session `target`, if the directory knows it.
    Relay { target: String, event: ServerEvent },
    /// Remove this session from the directory.
    Remove,
}

/// An `Inbound` with its texts as sequences of characters.
pub enum InboundView {
    Event(ClientEventView),
    Malformed,
    Closed,
}

/// An `Action` with its texts as sequences of characters.
pub enum ActionView {
    Nothing,
    Reply { event: ServerEventView },
    Join { room: Seq<char> },
    Leave { room: Seq<char> },
    Broadcast { room: Seq<char>, event: ServerEventView },
    Relay { target: Seq<char>, event: ServerEventView },
    Remove,
}

impl View for Inbound {
    type V = InboundView;

    open spec fn view(&self) -> InboundView {
        match *self {
            Inbound::Event(event) => InboundView::Event(event@),
            Inbound::Malformed => InboundView::Malformed,
            Inbound::Closed => InboundView::Closed,
        }
    }
}

impl View for Action {
    type V = ActionView;

    open spec fn view(&self) -> ActionView {
        match *self {
            Action::Nothing => ActionView::Nothing,
            Action::Reply { event } => ActionView::Reply { event: event@ },
            Action::Join { room } => ActionView::Join { room: room@ },
            Action::Leave { room } => ActionView::Leave { room: room@ },
            Action::Broadcast { room, event } => ActionView::Broadcast {
                room: room@,
                event: event@,
            },
            Action::Relay { target, event } => ActionView::Relay {
                target: target@,
                event: event@,
            },
            Action::Remove => ActionView::Remove,
        }
    }
}

/// The state of a connection.
pub struct ConnectionView {
    /// The session's id, fixed for the connection's lifetime.
    pub id: Seq<char>,
    /// The display name; empty until the first join.
    pub name: Seq<char>,
    /// The room the session is in, if it is in one.
    pub room: Option<Seq<char>>,
    /// Whether the connection is over.
    pub closed: bool,
}

/// The complaint sent for text that is no event.
pub open spec fn invalid_format() -> ServerEventView {
    ServerEventView::Error { message: "Invalid message format"@ }
}

/// The complaint sent for a chat line from a session that is in no room.
pub open spec fn join_first() -> ServerEventView {
    ServerEventView::Error { message: "You must join a room first"@ }
}

impl ConnectionView {
    /// A fresh connection of the session `id`.
    pub open spec fn fresh(id: Seq<char>) -> ConnectionView {
        ConnectionView { id, name: Seq::empty(), room: None, closed: false }
    }

    /// Where the connection stands.
    pub open spec fn phase(self) -> Phase {
        if self.closed {
            Phase::Closed
        } else if self.room.is_some() {
            Phase::Joined
        } else {
            Phase::Connected
        }
    }

    /// What `event` does to an open connection, and what it asks for, when
    /// the clock reads `now`.
    pub open spec fn on_event(self, event: ClientEventView, now: i64) -> (ConnectionView, ActionView) {
        match event {
            ClientEventView::Join { name, room } => (
                ConnectionView { name, room: Some(room), ..self },
                ActionView::Join { room },
            ),
            ClientEventView::Chat { message } => match self.room {
                Some(room) => (
                    self,
                    ActionView::Broadcast {
                        room,
                        event: ServerEventView::Chat {
                            room,
                            sender: self.name,
                            content: message,
                            timestamp: now,
                        },
                    },
                ),
                None => (self, ActionView::Reply { event: join_first() }),
            },
            ClientEventView::Leave => match self.room {
                Some(room) => (ConnectionView { room: None, ..self }, ActionView::Leave { room }),
                None => (self, ActionView::Nothing),
            },
            _ => match (self.room, event.target(), event.relayed(self.id)) {
                (Some(_), Some(target), Some(payload)) => (
                    self,
                    ActionView::Relay { target, event: payload },
                ),
                _ => (self, ActionView::Nothing),
            },
        }
    }

    /// Whether `input` is a chat line that will be broadcast, and so be
    /// stamped with the time.
    pub open spec fn stamps(self, input: InboundView) -> bool {
        self.phase() == Phase::Joined && input matches InboundView::Event(
            ClientEventView::Chat { .. },
        )
    }

    /// What `input` does to the connection, and what it asks for, when the
    /// clock reads `now`.
    pub open spec fn step(self, input: InboundView, now: i64) -> (ConnectionView, ActionView) {
        if self.closed {
            (self, ActionView::Nothing)
        } else {
            match input {
                InboundView::Event(event) => self.on_event(event, now),
                InboundView::Malformed => (self, ActionView::Reply { event: invalid_format() }),
                InboundView::Closed => (
                    ConnectionView { room: None, closed: true, ..self },
                    ActionView::Remove,
                ),
            }
        }
    }
}

impl ConnectionView {
    /// A connection that is over stays as it is and asks for nothing.
    pub proof fn lemma_closed_is_terminal(self, input: InboundView, now: i64)
        requires
            self.phase() == Phase::Closed,
        ensures
            self.step(input, now) == (self, ActionView::Nothing),
    {
    }

    /// The session's removal from the directory is asked for when the end of
    /// an open connection arrives, and at no other time; the connection is
    /// over from then on, so it is asked for once.
    pub proof fn lemma_removal_asked_once(self, input: InboundView, now: i64)
        ensures
            self.step(input, now).1 == ActionView::Remove <==> (self.phase() != Phase::Closed
                && input == InboundView::Closed),
            self.step(input, now).1 == ActionView::Remove ==> self.step(input, now).0.phase()
                == Phase::Closed,
    {
    }

    /// A join is accepted in every open state and leads to `Joined`; a leave
    /// leads from `Joined` back to `Connected`; nothing else changes where an
    /// open connection stands, but its end.
    pub proof fn lemma_transitions(self, input: InboundView, now: i64)
        requires
            self.phase() != Phase::Closed,
        ensures
            self.step(input, now).0.phase() == (match input {
                InboundView::Event(ClientEventView::Join { .. }) => Phase::Joined,
                InboundView::Event(ClientEventView::Leave) => Phase::Connected,
                InboundView::Closed => Phase::Closed,
                _ => self.phase(),
            }),
            self.step(input, now).0.id == self.id,
    {
    }

    /// A chat line from a session that is in a room goes to that room, as it
    /// was said, under the sender's display name.
    pub proof fn lemma_chat_goes_to_own_room(self, message: Seq<char>, now: i64)
        requires
            self.phase() == Phase::Joined,
        ensures
            self.step(InboundView::Event(ClientEventView::Chat { message }), now) == (
                self,
                ActionView::Broadcast {
                    room: self.room.unwrap(),
                    event: ServerEventView::Chat {
                        room: self.room.unwrap(),
                        sender: self.name,
                        content: message,
                        timestamp: now,
                    },
                },
            ),
    {
    }

    /// A negotiation event from a session that is in a room goes to the
    /// session it names and to no other, with the sender's id in place of
    /// the target. From a session that is in no room it goes nowhere.
    pub proof fn lemma_negotiation_goes_to_target(self, event: ClientEventView, now: i64)
        requires
            self.phase() != Phase::Closed,
            event.target().is_some(),
        ensures
            self.step(InboundView::Event(event), now) == (
                self,
                if self.phase() == Phase::Joined {
                    ActionView::Relay {
                        target: event.target().unwrap(),
                        event: event.relayed(self.id).unwrap(),
                    }
                } else {
                    ActionView::Nothing
                },
            ),
    {
    }

    /// Only a chat line that is broadcast depends on the time.
    pub proof fn lemma_time_only_stamps_chat(self, input: InboundView, a: i64, b: i64)
        requires
            !self.stamps(input),
        ensures
            self.step(input, a) == self.step(input, b),
    {
    }
}

/// The protocol state of one connection.
#[derive(Debug)]
pub struct Connection {
    id: String,
    name: String,
    room: Option<String>,
    closed: bool,
}

impl View for Connection {
    type V = ConnectionView;

    closed spec fn view(&self) -> ConnectionView {
        ConnectionView {
            id: self.id@,
            name: self.name@,
            room: match self.room {
                Some(room) => Some(room@),
                None => None,
            },
            closed: self.closed,
        }
    }
}

impl Connection {
    /// The state of a connection that has just been established for the
    /// session `id`: open, without a name, in no room.
    pub fn new(id: String) -> (connection: Connection)
        ensures
            connection@ == ConnectionView::fresh(id@),
    {
        Connection { id, name: String::new(), room: None, closed: false }
    }

    /// The session's id.
    pub fn id(&self) -> (id: &str)
        ensures
            id@ == self@.id,
    {
        self.id.as_str()
    }

    /// The display name given with the latest join; empty before the first.
    pub fn name(&self) -> (name: &str)
        ensures
            name@ == self@.name,
    {
        self.name.as_str()
    }

    /// The room the session is in, if it is in one.
    pub fn room(&self) -> (room: Option<&str>)
        ensures
            match room {
                Some(r) => self@.room == Some(r@),
                None => self@.room.is_none(),
            },
    {
        match &self.room {
            Some(room) => Some(room.as_str()),
            None => None,
        }
    }

    /// Where the connection stands.
    pub fn phase(&self) -> (phase: Phase)
        ensures
            phase == self@.phase(),
    {
        if self.closed {
            Phase::Closed
        } else if self.room.is_some() {
            Phase::Joined
        } else {
            Phase::Connected
        }
    }

    /// Takes in `input` at the time `now` (milliseconds since the Unix
    /// epoch): moves the connection to its next state and says what the
    /// caller is to do.
    pub fn handle_at(&mut self, input: Inbound, now: i64) -> (action: Action)
        ensures
            (final(self)@, action@) == old(self)@.step(input@, now),
    {
        if self.closed {
            return Action::Nothing;
        }
        match input {
            Inbound::Malformed => Action::Reply { event: ServerEvent::error("Invalid message format") },
            Inbound::Closed => {
                self.room = None;
                self.closed = true;
                Action::Remove
            },
            Inbound::Event(event) => match event {
                ClientEvent::Join { name, room } => {
                    self.name = name;
                    self.room = Some(room.clone());
                    Action::Join { room }
                },
                ClientEvent::Chat { message } => match &self.room {
                    Some(room) => Action::Broadcast {
                        room: room.clone(),
                        event: ServerEvent::chat(room.as_str(), self.name.as_str(), message, now),
                    },
                    None => Action::Reply { event: ServerEvent::error("You must join a room first") },
                },
                ClientEvent::Leave => match self.room.take() {
                    Some(room) => Action::Leave { room },
                    None => Action::Nothing,
                },
                signal => {
                    if self.room.is_some() {
                        match signal.into_relayed(self.id.as_str()) {
                            Some(relayed) => Action::Relay {
                                target: relayed.target,
                                event: relayed.event,
                            },
                            None => Action::Nothing,
                        }
                    } else {
                        Action::Nothing
                    }
                },
            },
        }
    }

    /// Whether taking in `input` now would stamp a chat line with the time.
    fn stamps(&self, input: &Inbound) -> (stamps: bool)
        ensures
            stamps == self@.stamps(input@),
    {
        match input {
            Inbound::Event(ClientEvent::Chat { .. }) => !self.closed && self.room.is_some(),
            _ => false,
        }
    }

    /// Takes in `input` now: as `handle_at`, with the time read from the
    /// system clock when a chat line is to be stamped. Whatever the clock
    /// gives, the outcome is that of `handle_at` at some time.
    pub fn handle(&mut self, input: Inbound) -> (action: Action)
        ensures
            exists|now: i64| (final(self)@, action@) == #[trigger] old(self)@.step(input@, now),
            !old(self)@.stamps(input@) ==> (final(self)@, action@) == old(self)@.step(input@, 0),
    {
        let now = if self.stamps(&input) {
            now_millis()
        } else {
            0
        };
        self.handle_at(input, now)
    }
}

} // verus!
