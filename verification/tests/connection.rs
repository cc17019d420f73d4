use messenger_server::connection::{Action, Connection, Inbound, Phase};
use messenger_server::wire::{ClientEvent, ServerEvent};

fn join(name: &str, room: &str) -> Inbound {
    Inbound::Event(ClientEvent::Join { name: name.to_string(), room: room.to_string() })
}

fn chat(message: &str) -> Inbound {
    Inbound::Event(ClientEvent::Chat { message: message.to_string() })
}

fn error(message: &str) -> Action {
    Action::Reply { event: ServerEvent::Error { message: message.to_string() } }
}

#[test]
fn a_fresh_connection_is_open_and_in_no_room() {
    let connection = Connection::new("s1".to_string());
    assert_eq!(connection.id(), "s1");
    assert_eq!(connection.name(), "");
    assert_eq!(connection.room(), None);
    assert_eq!(connection.phase(), Phase::Connected);
}

#[test]
fn join_sets_name_and_room() {
    let mut connection = Connection::new("s1".to_string());
    let action = connection.handle_at(join("Ann", "lobby"), 0);
    assert_eq!(action, Action::Join { room: "lobby".to_string() });
    assert_eq!(connection.name(), "Ann");
    assert_eq!(connection.room(), Some("lobby"));
    assert_eq!(connection.phase(), Phase::Joined);
    assert_eq!(connection.id(), "s1");
}

#[test]
fn join_while_joined_moves_to_the_new_room() {
    let mut connection = Connection::new("s1".to_string());
    connection.handle_at(join("Ann", "A"), 0);
    let action = connection.handle_at(join("Annie", "B"), 0);
    assert_eq!(action, Action::Join { room: "B".to_string() });
    assert_eq!(connection.name(), "Annie");
    assert_eq!(connection.room(), Some("B"));
    assert_eq!(connection.phase(), Phase::Joined);
}

#[test]
fn chat_before_join_is_refused() {
    let mut connection = Connection::new("s1".to_string());
    let action = connection.handle_at(chat("hi"), 0);
    assert_eq!(action, error("You must join a room first"));
    assert_eq!(connection.phase(), Phase::Connected);
    assert_eq!(connection.room(), None);
}

#[test]
fn chat_is_broadcast_under_the_display_name() {
    let mut connection = Connection::new("s1".to_string());
    connection.handle_at(join("A", "lobby"), 0);
    let action = connection.handle_at(chat("hi"), 1_700_000_000_123);
    assert_eq!(
        action,
        Action::Broadcast {
            room: "lobby".to_string(),
            event: ServerEvent::Chat {
                room: "lobby".to_string(),
                sender: "A".to_string(),
                content: "hi".to_string(),
                timestamp: 1_700_000_000_123,
            },
        }
    );
    assert_eq!(connection.phase(), Phase::Joined);
}

#[test]
fn chat_is_stamped_with_the_clock() {
    let mut connection = Connection::new("s1".to_string());
    connection.handle(join("A", "lobby"));
    let first = connection.handle(chat("hi"));
    let stamp = match first {
        Action::Broadcast { room, event: ServerEvent::Chat { room: said_in, sender, content, timestamp } } => {
            assert_eq!(room, "lobby");
            assert_eq!(said_in, "lobby");
            assert_eq!(sender, "A");
            assert_eq!(content, "hi");
            timestamp
        }
        other => panic!("not a chat broadcast: {:?}", other),
    };
    // Milliseconds since the epoch: later than the year 2020, earlier than the year 2200.
    assert!(stamp > 1_577_836_800_000);
    assert!(stamp < 7_258_118_400_000);
}

#[test]
fn what_needs_no_clock_is_the_same_with_and_without_it() {
    let mut with_clock = Connection::new("s1".to_string());
    let mut at_zero = Connection::new("s1".to_string());
    let inputs = vec![
        chat("early"),
        Inbound::Malformed,
        join("Ann", "lobby"),
        Inbound::Event(ClientEvent::Offer { target: "s2".to_string(), sdp: "v=0".to_string() }),
        Inbound::Event(ClientEvent::Leave),
        Inbound::Event(ClientEvent::Leave),
        Inbound::Closed,
        join("Ann", "lobby"),
    ];
    for input in inputs {
        let again = match &input {
            Inbound::Event(ClientEvent::Join { name, room }) => join(name, room),
            Inbound::Event(ClientEvent::Chat { message }) => chat(message),
            Inbound::Event(ClientEvent::Offer { target, sdp }) => {
                Inbound::Event(ClientEvent::Offer { target: target.clone(), sdp: sdp.clone() })
            }
            Inbound::Event(ClientEvent::Leave) => Inbound::Event(ClientEvent::Leave),
            Inbound::Malformed => Inbound::Malformed,
            Inbound::Closed => Inbound::Closed,
            _ => unreachable!(),
        };
        assert_eq!(with_clock.handle(input), at_zero.handle_at(again, 0));
        assert_eq!(with_clock.phase(), at_zero.phase());
        assert_eq!(with_clock.room(), at_zero.room());
        assert_eq!(with_clock.name(), at_zero.name());
    }
}

#[test]
fn malformed_input_is_answered_and_changes_nothing() {
    let mut connection = Connection::new("s1".to_string());
    assert_eq!(connection.handle_at(Inbound::Malformed, 0), error("Invalid message format"));
    assert_eq!(connection.phase(), Phase::Connected);
    connection.handle_at(join("Ann", "lobby"), 0);
    assert_eq!(connection.handle_at(Inbound::Malformed, 0), error("Invalid message format"));
    assert_eq!(connection.phase(), Phase::Joined);
    assert_eq!(connection.room(), Some("lobby"));
    assert_eq!(connection.name(), "Ann");
}

#[test]
fn leave_returns_to_connected() {
    let mut connection = Connection::new("s1".to_string());
    connection.handle_at(join("Ann", "lobby"), 0);
    let action = connection.handle_at(Inbound::Event(ClientEvent::Leave), 0);
    assert_eq!(action, Action::Leave { room: "lobby".to_string() });
    assert_eq!(connection.phase(), Phase::Connected);
    assert_eq!(connection.room(), None);
    assert_eq!(connection.name(), "Ann");
}

#[test]
fn leave_while_not_joined_is_ignored() {
    let mut connection = Connection::new("s1".to_string());
    assert_eq!(connection.handle_at(Inbound::Event(ClientEvent::Leave), 0), Action::Nothing);
    connection.handle_at(join("Ann", "lobby"), 0);
    connection.handle_at(Inbound::Event(ClientEvent::Leave), 0);
    assert_eq!(connection.handle_at(Inbound::Event(ClientEvent::Leave), 0), Action::Nothing);
    assert_eq!(connection.phase(), Phase::Connected);
}

#[test]
fn chat_after_leave_is_refused() {
    let mut connection = Connection::new("s1".to_string());
    connection.handle_at(join("Ann", "lobby"), 0);
    connection.handle_at(Inbound::Event(ClientEvent::Leave), 0);
    assert_eq!(connection.handle_at(chat("hi"), 0), error("You must join a room first"));
}

#[test]
fn negotiation_is_ignored_while_not_joined() {
    let mut connection = Connection::new("s1".to_string());
    let offer = ClientEvent::Offer { target: "s2".to_string(), sdp: "v=0".to_string() };
    let answer = ClientEvent::Answer { target: "s2".to_string(), sdp: "v=0".to_string() };
    let candidate = ClientEvent::IceCandidate {
        target: "s2".to_string(),
        candidate: "c".to_string(),
        sdp_mid: "0".to_string(),
        sdp_mline_index: 0,
    };
    assert_eq!(connection.handle_at(Inbound::Event(offer), 0), Action::Nothing);
    assert_eq!(connection.handle_at(Inbound::Event(answer), 0), Action::Nothing);
    assert_eq!(connection.handle_at(Inbound::Event(candidate), 0), Action::Nothing);
    assert_eq!(connection.phase(), Phase::Connected);
}

#[test]
fn an_offer_is_relayed_with_the_senders_id() {
    let mut connection = Connection::new("id-of-a".to_string());
    connection.handle_at(join("Ann", "lobby"), 0);
    let offer = ClientEvent::Offer { target: "id-of-b".to_string(), sdp: "v=0".to_string() };
    assert_eq!(
        connection.handle_at(Inbound::Event(offer), 0),
        Action::Relay {
            target: "id-of-b".to_string(),
            event: ServerEvent::Offer { sender: "id-of-a".to_string(), sdp: "v=0".to_string() },
        }
    );
}

#[test]
fn an_answer_is_relayed_with_the_senders_id() {
    let mut connection = Connection::new("id-of-a".to_string());
    connection.handle_at(join("Ann", "lobby"), 0);
    let answer = ClientEvent::Answer { target: "id-of-b".to_string(), sdp: "v=1".to_string() };
    assert_eq!(
        connection.handle_at(Inbound::Event(answer), 0),
        Action::Relay {
            target: "id-of-b".to_string(),
            event: ServerEvent::Answer { sender: "id-of-a".to_string(), sdp: "v=1".to_string() },
        }
    );
}

#[test]
fn a_candidate_is_relayed_with_all_its_fields() {
    let mut connection = Connection::new("id-of-a".to_string());
    connection.handle_at(join("Ann", "lobby"), 0);
    let candidate = ClientEvent::IceCandidate {
        target: "id-of-b".to_string(),
        candidate: "candidate:1 1 UDP 1 10.0.0.1 5000 typ host".to_string(),
        sdp_mid: "audio".to_string(),
        sdp_mline_index: 3,
    };
    assert_eq!(
        connection.handle_at(Inbound::Event(candidate), 0),
        Action::Relay {
            target: "id-of-b".to_string(),
            event: ServerEvent::IceCandidate {
                sender: "id-of-a".to_string(),
                candidate: "candidate:1 1 UDP 1 10.0.0.1 5000 typ host".to_string(),
                sdp_mid: "audio".to_string(),
                sdp_mline_index: 3,
            },
        }
    );
    assert_eq!(connection.phase(), Phase::Joined);
}

#[test]
fn the_end_asks_for_removal_once() {
    let mut connection = Connection::new("s1".to_string());
    connection.handle_at(join("Ann", "lobby"), 0);
    assert_eq!(connection.handle_at(Inbound::Closed, 0), Action::Remove);
    assert_eq!(connection.phase(), Phase::Closed);
    assert_eq!(connection.room(), None);
    assert_eq!(connection.handle_at(Inbound::Closed, 0), Action::Nothing);
    assert_eq!(connection.phase(), Phase::Closed);
}

#[test]
fn the_end_of_a_connection_that_never_joined_asks_for_removal() {
    let mut connection = Connection::new("s1".to_string());
    assert_eq!(connection.handle_at(Inbound::Closed, 0), Action::Remove);
    assert_eq!(connection.phase(), Phase::Closed);
}

#[test]
fn nothing_has_an_effect_after_the_end() {
    let mut connection = Connection::new("s1".to_string());
    connection.handle_at(join("Ann", "lobby"), 0);
    connection.handle_at(Inbound::Closed, 0);
    assert_eq!(connection.handle_at(join("Ann", "lobby"), 0), Action::Nothing);
    assert_eq!(connection.handle_at(chat("hi"), 0), Action::Nothing);
    assert_eq!(connection.handle_at(Inbound::Malformed, 0), Action::Nothing);
    assert_eq!(connection.handle_at(Inbound::Event(ClientEvent::Leave), 0), Action::Nothing);
    assert_eq!(connection.phase(), Phase::Closed);
    assert_eq!(connection.room(), None);
    assert_eq!(connection.name(), "Ann");
}

#[test]
fn a_room_with_an_empty_name_is_a_room() {
    let mut connection = Connection::new("s1".to_string());
    connection.handle_at(join("Ann", ""), 0);
    assert_eq!(connection.phase(), Phase::Joined);
    assert_eq!(connection.room(), Some(""));
    let action = connection.handle_at(chat("hi"), 9);
    assert_eq!(
        action,
        Action::Broadcast {
            room: String::new(),
            event: ServerEvent::Chat {
                room: String::new(),
                sender: "Ann".to_string(),
                content: "hi".to_string(),
                timestamp: 9,
            },
        }
    );
}
