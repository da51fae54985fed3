use meowww::broadcast::{Action, ConnectionSlot, Round};
use meowww::message::Message;
use meowww::room::{Operation, Reply, Room};

type TestRoom = Room<&'static str, u32>;

fn message(nickname: &str, content: &str) -> Message {
    Message::new(nickname.to_string(), content.to_string())
}

fn pairs(history: Vec<Message>) -> Vec<(String, String)> {
    history.into_iter().map(|m| (m.nickname, m.content)).collect()
}

fn pair(nickname: &str, content: &str) -> (String, String) {
    (nickname.to_string(), content.to_string())
}

/// Plays `round` with a transport on which only even endpoints take a
/// payload and only handles that are numbers resolve, then settles it.
fn deliver(room: &mut TestRoom, mut round: Round<&'static str, u32>) {
    let mut action = round.next_action();
    loop {
        action = match action {
            Action::Resolve(handle) => round.resolved(handle.parse().ok()),
            Action::Send(endpoint) => round.sent(endpoint, endpoint % 2 == 0, false),
            Action::Finished => break,
        };
    }
    room.settle(round);
}

fn post(room: &mut TestRoom, nickname: &str, content: &str) {
    if let Some(round) = room.add_message(message(nickname, content)) {
        deliver(room, round);
    }
}

/// The slots of a room, read by probing it without touching a slot.
fn slots(room: &mut TestRoom) -> Vec<ConnectionSlot<&'static str, u32>> {
    let round = room.probe();
    let slots = round.finish();
    room.settle(Round::start(String::new(), slots.clone()));
    slots
}

#[test]
fn new_room_is_empty() {
    let room = TestRoom::new("lobby", 3);
    assert_eq!(room.name(), "lobby");
    assert_eq!(room.history(), Vec::<Message>::new());
    assert_eq!(room.nb_clients(), 0);
    assert!(!room.worth_keeping());
}

#[test]
fn capacity_two_keeps_the_last_two_posts() {
    let mut room = TestRoom::new("lobby", 2);
    post(&mut room, "a", "hi");
    post(&mut room, "b", "yo");
    post(&mut room, "c", "sup");
    assert_eq!(pairs(room.history()), vec![pair("b", "yo"), pair("c", "sup")]);
}

#[test]
fn blank_nickname_leaves_history_unchanged() {
    let mut room = TestRoom::new("lobby", 2);
    assert!(room.add_message(message(" ", "hello")).is_none());
    assert_eq!(room.history(), Vec::<Message>::new());
    assert!(!room.worth_keeping());
}

#[test]
fn degenerate_message_leaves_connections_unchanged() {
    let mut room = TestRoom::new("lobby", 2);
    post(&mut room, "a", "hi");
    room.add_connection("8");
    room.settle(Round::start(String::new(), vec![ConnectionSlot::Connected(2)]));
    let before = slots(&mut room);
    assert_eq!(before, vec![ConnectionSlot::Connected(2), ConnectionSlot::Pending("8")]);
    for (nickname, content) in [("", "x"), ("x", ""), (" \n", "x"), ("x", "\t "), ("", "")] {
        assert!(room.add_message(message(nickname, content)).is_none());
        assert_eq!(room.nb_clients(), 2);
        assert_eq!(slots(&mut room), before);
        assert_eq!(pairs(room.history()), vec![pair("a", "hi")]);
    }
}

#[test]
fn message_round_carries_payload_and_all_slots() {
    let mut room = TestRoom::new("lobby", 2);
    room.add_connection("first");
    room.add_connection("second");
    let round = room.add_message(message("a", "hi")).unwrap();
    assert_eq!(round.payload(), "{\"nickname\":\"a\",\"content\":\"hi\"}");
    assert_eq!(room.nb_clients(), 0);
    assert_eq!(pairs(room.history()), vec![pair("a", "hi")]);
    assert_eq!(
        round.finish(),
        vec![ConnectionSlot::Pending("first"), ConnectionSlot::Pending("second")]
    );
}

#[test]
fn stored_nickname_is_cut_to_thirty_characters() {
    let mut room = TestRoom::new("lobby", 2);
    let long = "ü".repeat(40);
    post(&mut room, &long, "hi");
    assert_eq!(pairs(room.history()), vec![("ü".repeat(30), "hi".to_string())]);
}

#[test]
fn round_payload_has_the_cut_nickname() {
    let mut room = TestRoom::new("lobby", 2);
    let round = room.add_message(message(&"n".repeat(31), "hi")).unwrap();
    let expected = format!("{{\"nickname\":\"{}\",\"content\":\"hi\"}}", "n".repeat(30));
    assert_eq!(round.payload(), expected);
}

#[test]
fn broadcast_keeps_the_accepting_slot_only() {
    let mut room = TestRoom::new("lobby", 5);
    room.settle(Round::start(
        String::new(),
        vec![ConnectionSlot::Connected(2), ConnectionSlot::Connected(3)],
    ));
    assert_eq!(room.nb_clients(), 2);
    post(&mut room, "a", "hi");
    assert_eq!(slots(&mut room), vec![ConnectionSlot::Connected(2)]);
    assert_eq!(pairs(room.history()), vec![pair("a", "hi")]);
}

#[test]
fn broadcast_connects_pending_slots() {
    let mut room = TestRoom::new("lobby", 5);
    room.add_connection("4");
    room.add_connection("never");
    room.add_connection("5");
    room.add_connection("6");
    post(&mut room, "a", "hi");
    assert_eq!(
        slots(&mut room),
        vec![ConnectionSlot::Connected(4), ConnectionSlot::Connected(6)]
    );
}

#[test]
fn probe_sends_the_empty_payload() {
    let mut room = TestRoom::new("lobby", 5);
    room.add_connection("4");
    let round = room.probe();
    assert_eq!(round.payload(), "");
    assert_eq!(room.nb_clients(), 0);
    deliver(&mut room, round);
    assert_eq!(slots(&mut room), vec![ConnectionSlot::Connected(4)]);
    assert_eq!(room.history(), Vec::<Message>::new());
}

#[test]
fn settle_puts_newcomers_last() {
    let mut room = TestRoom::new("lobby", 5);
    room.add_connection("2");
    let mut round = room.probe();
    room.add_connection("late");
    assert_eq!(round.next_action(), Action::Resolve("2"));
    assert_eq!(round.resolved(Some(2)), Action::Send(2));
    assert_eq!(round.sent(2, true, false), Action::Finished);
    room.settle(round);
    assert_eq!(
        slots(&mut room),
        vec![ConnectionSlot::Connected(2), ConnectionSlot::Pending("late")]
    );
}

#[test]
fn room_with_a_slot_is_worth_keeping() {
    let mut room = TestRoom::new("lobby", 0);
    room.add_connection("x");
    assert!(room.worth_keeping());
    assert_eq!(room.nb_clients(), 1);
}

#[test]
fn room_with_a_message_is_worth_keeping() {
    let mut room = TestRoom::new("lobby", 1);
    post(&mut room, "a", "hi");
    assert!(room.worth_keeping());
}

#[test]
fn room_of_capacity_zero_forgets_its_messages() {
    let mut room = TestRoom::new("lobby", 0);
    post(&mut room, "a", "hi");
    assert_eq!(room.history(), Vec::<Message>::new());
    assert!(!room.worth_keeping());
}

#[test]
fn merge_appends_history_and_slots() {
    let mut a = TestRoom::new("lobby", 3);
    post(&mut a, "a", "1");
    post(&mut a, "a", "2");
    a.add_connection("a1");
    let mut b = TestRoom::new("lobby", 3);
    post(&mut b, "b", "3");
    post(&mut b, "b", "4");
    b.add_connection("b1");
    a.merge(b);
    assert_eq!(a.name(), "lobby");
    assert_eq!(pairs(a.history()), vec![pair("a", "2"), pair("b", "3"), pair("b", "4")]);
    assert_eq!(
        slots(&mut a),
        vec![ConnectionSlot::Pending("a1"), ConnectionSlot::Pending("b1")]
    );
}

#[test]
fn apply_answers_with_a_round_where_there_is_work() {
    let mut room = TestRoom::new("lobby", 3);
    assert!(matches!(room.apply(Operation::AddConnection("2")), Reply::Done));
    assert!(matches!(room.apply(Operation::AddMessage(message("", "x"))), Reply::Done));
    let round = match room.apply(Operation::AddMessage(message("a", "hi"))) {
        Reply::Deliver(round) => round,
        Reply::Done => panic!("no round for an acceptable message"),
    };
    assert_eq!(room.nb_clients(), 0);
    assert!(matches!(room.apply(Operation::Settle(round)), Reply::Done));
    assert_eq!(room.nb_clients(), 1);
    let probe = match room.apply(Operation::Probe) {
        Reply::Deliver(round) => round,
        Reply::Done => panic!("no round for a probe"),
    };
    assert_eq!(probe.payload(), "");
    assert_eq!(probe.finish(), vec![ConnectionSlot::Pending("2")]);
}
