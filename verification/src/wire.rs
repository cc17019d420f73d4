//! The events that travel between a client and the server, as plain values.
//! How an event is written as text on the connection is left to the caller.

use vstd::prelude::*;
use crate::table::texts;

verus! {

/// What a client may send.
#[derive(Debug, PartialEq, Eq)]
pub enum ClientEvent {
    /// Enter `room` under the display name `name`.
    Join { name: String, room: String },
    /// Say `message` to the room the sender is in.
    Chat { message: String },
    /// Leave the current room.
    Leave,
    /// A session description offered to the session `target`.
    Offer { target: String, sdp: String },
    /// A session description answering an offer of the session `target`.
    Answer { target: String, sdp: String },
    /// A connectivity candidate for the session `target`.
    IceCandidate { target: String, candidate: String, sdp_mid: String, sdp_mline_index: u32 },
}

/// What the server may send.
#[derive(Debug, PartialEq, Eq)]
pub enum ServerEvent {
    /// The sessions that are in `room` at the moment of the snapshot.
    RoomUsers { room: String, users: Vec<String> },
    /// A chat line said in `room` by the session whose display name is `sender`.
    Chat { room: String, sender: String, content: String, timestamp: i64 },
    /// An offer relayed from the session whose id is `sender`.
    Offer { sender: String, sdp: String },
    /// An answer relayed from the session whose id is `sender`.
    Answer { sender: String, sdp: String },
    /// A connectivity candidate relayed from the session whose id is `sender`.
    IceCandidate { sender: String, candidate: String, sdp_mid: String, sdp_mline_index: u32 },
    /// A complaint addressed to the connection that caused it.
    Error { message: String },
}

/// A `ClientEvent` with its texts as sequences of characters.
pub enum ClientEventView {
    Join { name: Seq<char>, room: Seq<char> },
    Chat { message: Seq<char> },
    Leave,
    Offer { target: Seq<char>, sdp: Seq<char> },
    Answer { target: Seq<char>, sdp: Seq<char> },
    IceCandidate {
        target: Seq<char>,
        candidate: Seq<char>,
        sdp_mid: Seq<char>,
        sdp_mline_index: u32,
    },
}

/// A `ServerEvent` with its texts as sequences of characters.
pub enum ServerEventView {
    RoomUsers { room: Seq<char>, users: Seq<Seq<char>> },
    Chat { room: Seq<char>, sender: Seq<char>, content: Seq<char>, timestamp: i64 },
    Offer { sender: Seq<char>, sdp: Seq<char> },
    Answer { sender: Seq<char>, sdp: Seq<char> },
    IceCandidate {
        sender: Seq<char>,
        candidate: Seq<char>,
        sdp_mid: Seq<char>,
        sdp_mline_index: u32,
    },
    Error { message: Seq<char> },
}

impl View for ClientEvent {
    type V = ClientEventView;

    open spec fn view(&self) -> ClientEventView {
        match *self {
            ClientEvent::Join { name, room } => ClientEventView::Join { name: name@, room: room@ },
            ClientEvent::Chat { message } => ClientEventView::Chat { message: message@ },
            ClientEvent::Leave => ClientEventView::Leave,
            ClientEvent::Offer { target, sdp } => ClientEventView::Offer {
                target: target@,
                sdp: sdp@,
            },
            ClientEvent::Answer { target, sdp } => ClientEventView::Answer {
                target: target@,
                sdp: sdp@,
            },
            ClientEvent::IceCandidate {
                target,
                candidate,
                sdp_mid,
                sdp_mline_index,
            } => ClientEventView::IceCandidate {
                target: target@,
                candidate: candidate@,
                sdp_mid: sdp_mid@,
                sdp_mline_index,
            },
        }
    }
}

impl View for ServerEvent {
    type V = ServerEventView;

    open spec fn view(&self) -> ServerEventView {
        match *self {
            ServerEvent::RoomUsers { room, users } => ServerEventView::RoomUsers {
                room: room@,
                users: texts(users@),
            },
            ServerEvent::Chat { room, sender, content, timestamp } => ServerEventView::Chat {
                room: room@,
                sender: sender@,
                content: content@,
                timestamp,
            },
            ServerEvent::Offer { sender, sdp } => ServerEventView::Offer {
                sender: sender@,
                sdp: sdp@,
            },
            ServerEvent::Answer { sender, sdp } => ServerEventView::Answer {
                sender: sender@,
                sdp: sdp@,
            },
            ServerEvent::IceCandidate {
                sender,
                candidate,
                sdp_mid,
                sdp_mline_index,
            } => ServerEventView::IceCandidate {
                sender: sender@,
                candidate: candidate@,
                sdp_mid: sdp_mid@,
                sdp_mline_index,
            },
            ServerEvent::Error { message } => ServerEventView::Error { message: message@ },
        }
    }
}

impl ClientEventView {
    /// The session that a negotiation event is addressed to; `None` for the
    /// events that are not point-to-point.
    pub open spec fn target(self) -> Option<Seq<char>> {
        match self {
            ClientEventView::Offer { target, .. } => Some(target),
            ClientEventView::Answer { target, .. } => Some(target),
            ClientEventView::IceCandidate { target, .. } => Some(target),
            _ => None,
        }
    }

    /// What the target of a negotiation event is sent when the session
    /// `sender` issues it: the event's own fields, tagged with the sender's
    /// id. `None` for the events that are not point-to-point.
    pub open spec fn relayed(self, sender: Seq<char>) -> Option<ServerEventView> {
        match self {
            ClientEventView::Offer { sdp, .. } => Some(ServerEventView::Offer { sender, sdp }),
            ClientEventView::Answer { sdp, .. } => Some(ServerEventView::Answer { sender, sdp }),
            ClientEventView::IceCandidate {
                candidate,
                sdp_mid,
                sdp_mline_index,
                ..
            } => Some(
                ServerEventView::IceCandidate { sender, candidate, sdp_mid, sdp_mline_index },
            ),
            _ => None,
        }
    }
}

/// A negotiation payload on its way to one session.
#[derive(Debug, PartialEq, Eq)]
pub struct Relayed {
    /// The id of the session it is for.
    pub target: String,
    /// What that session is sent.
    pub event: ServerEvent,
}

impl ClientEvent {
    /// Turns a negotiation event issued by the session `sender` into the
    /// payload for its target. The other events give `None`.
    pub fn into_relayed(self, sender: &str) -> (relayed: Option<Relayed>)
        ensures
            match relayed {
                Some(r) => self@.target() == Some(r.target@) && self@.relayed(sender@) == Some(
                    r.event@,
                ),
                None => self@.target().is_none() && self@.relayed(sender@).is_none(),
            },
    {
        match self {
            ClientEvent::Offer { target, sdp } => Some(
                Relayed { target, event: ServerEvent::Offer { sender: sender.to_owned(), sdp } },
            ),
            ClientEvent::Answer { target, sdp } => Some(
                Relayed { target, event: ServerEvent::Answer { sender: sender.to_owned(), sdp } },
            ),
            ClientEvent::IceCandidate { target, candidate, sdp_mid, sdp_mline_index } => Some(
                Relayed {
                    target,
                    event: ServerEvent::IceCandidate {
                        sender: sender.to_owned(),
                        candidate,
                        sdp_mid,
                        sdp_mline_index,
                    },
                },
            ),
            _ => None,
        }
    }
}

impl ServerEvent {
    /// The complaint with the text `message`.
    pub fn error(message: &str) -> (event: ServerEvent)
        ensures
            event@ == (ServerEventView::Error { message: message@ }),
    {
        ServerEvent::Error { message: message.to_owned() }
    }

    /// The chat line `content`, said in `room` under the display name `sender` at `timestamp`
    /// (milliseconds since the Unix epoch).
    pub fn chat(room: &str, sender: &str, content: String, timestamp: i64) -> (event: ServerEvent)
        ensures
            event@ == (ServerEventView::Chat {
                room: room@,
                sender: sender@,
                content: content@,
                timestamp,
            }),
    {
        ServerEvent::Chat { room: room.to_owned(), sender: sender.to_owned(), content, timestamp }
    }
}

} // verus!
