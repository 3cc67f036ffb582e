use room_relay::message::Message;
use room_relay::protocol::{
    anon_string, handle, handle_disconnect, handle_event, Action, Event, Membership, Session,
};
use room_relay::store::MessageStore;

fn texts(history: &[Message]) -> Vec<&str> {
    history.iter().map(|m| m.text.as_str()).collect()
}

#[test]
fn unreferenced_room_reads_empty() {
    let store = MessageStore::new();
    assert!(store.get("nowhere").is_empty());
    let mut store = MessageStore::new();
    store.insert(
        "lobby",
        Message { text: "hi".to_string(), user: "anon-c1".to_string(), date: 1 },
    );
    assert!(store.get("other").is_empty());
}

#[test]
fn default_store_is_empty() {
    let store = MessageStore::default();
    assert!(store.get("lobby").is_empty());
}

#[test]
fn inserts_keep_per_room_order_under_interleaving() {
    let mut store = MessageStore::new();
    let user = "anon-c1".to_string();
    store.insert("lobby", Message { text: "m1".to_string(), user: user.clone(), date: 1 });
    store.insert("kitchen", Message { text: "x".to_string(), user: user.clone(), date: 2 });
    store.insert("lobby", Message { text: "m2".to_string(), user: user.clone(), date: 3 });
    store.insert("kitchen", Message { text: "y".to_string(), user: user.clone(), date: 4 });
    store.insert("lobby", Message { text: "m3".to_string(), user: user.clone(), date: 5 });
    let lobby = store.get("lobby");
    assert_eq!(texts(&lobby), vec!["m1", "m2", "m3"]);
    assert_eq!(lobby[0].date, 1);
    assert_eq!(lobby[1].date, 3);
    assert_eq!(lobby[2].date, 5);
    assert_eq!(texts(&store.get("kitchen")), vec!["x", "y"]);
}

#[test]
fn get_returns_a_snapshot_copy() {
    let mut store = MessageStore::new();
    store.insert(
        "lobby",
        Message { text: "hi".to_string(), user: "anon-c1".to_string(), date: 1 },
    );
    let snapshot = store.get("lobby");
    store.insert(
        "lobby",
        Message { text: "later".to_string(), user: "anon-c2".to_string(), date: 2 },
    );
    assert_eq!(texts(&snapshot), vec!["hi"]);
    assert_eq!(texts(&store.get("lobby")), vec!["hi", "later"]);
}

#[test]
fn join_with_no_history_replays_empty() {
    let mut store = MessageStore::new();
    let mut session = Session { membership: Membership::Unjoined };
    let actions = handle_event("c1", Event::Join("lobby".to_string()), 10, &mut session, &mut store);
    assert_eq!(actions.len(), 3);
    assert!(matches!(actions[0], Action::LeaveAllGroups));
    match &actions[1] {
        Action::JoinGroup(room) => assert_eq!(room, "lobby"),
        other => panic!("expected JoinGroup, got {other:?}"),
    }
    match &actions[2] {
        Action::EmitHistory(history) => assert!(history.is_empty()),
        other => panic!("expected EmitHistory, got {other:?}"),
    }
    match &session.membership {
        Membership::MemberOf(room) => assert_eq!(room, "lobby"),
        Membership::Unjoined => panic!("join must set membership"),
    }
}

#[test]
fn message_is_stored_and_broadcast_to_its_room() {
    let mut store = MessageStore::new();
    let mut session = Session { membership: Membership::Unjoined };
    handle_event("c1", Event::Join("lobby".to_string()), 10, &mut session, &mut store);
    let actions = handle_event(
        "c1",
        Event::Message { room: "lobby".to_string(), text: "hi".to_string() },
        11,
        &mut session,
        &mut store,
    );
    assert_eq!(actions.len(), 1);
    match &actions[0] {
        Action::Broadcast(room, message) => {
            assert_eq!(room, "lobby");
            assert_eq!(message.text, "hi");
            assert_eq!(message.user, "anon-c1");
            assert_eq!(message.date, 11);
        }
        other => panic!("expected Broadcast, got {other:?}"),
    }
    let history = store.get("lobby");
    assert_eq!(history.len(), 1);
    assert_eq!(history[0].text, "hi");
    assert_eq!(history[0].user, "anon-c1");
    assert_eq!(history[0].date, 11);
}

#[test]
fn later_joiner_receives_full_history() {
    let mut store = MessageStore::new();
    let mut c1 = Session { membership: Membership::Unjoined };
    let mut c2 = Session { membership: Membership::Unjoined };
    handle_event("c1", Event::Join("lobby".to_string()), 10, &mut c1, &mut store);
    handle_event(
        "c1",
        Event::Message { room: "lobby".to_string(), text: "hi".to_string() },
        11,
        &mut c1,
        &mut store,
    );
    let actions = handle_event("c2", Event::Join("lobby".to_string()), 12, &mut c2, &mut store);
    match &actions[2] {
        Action::EmitHistory(history) => {
            assert_eq!(history.len(), 1);
            assert_eq!(history[0].text, "hi");
            assert_eq!(history[0].user, "anon-c1");
            assert_eq!(history[0].date, 11);
        }
        other => panic!("expected EmitHistory, got {other:?}"),
    }
}

#[test]
fn message_targets_payload_room_not_membership() {
    let mut store = MessageStore::new();
    let mut session = Session { membership: Membership::Unjoined };
    handle_event("c1", Event::Join("lobby".to_string()), 10, &mut session, &mut store);
    let actions = handle_event(
        "c1",
        Event::Message { room: "other".to_string(), text: "hi".to_string() },
        11,
        &mut session,
        &mut store,
    );
    match &actions[0] {
        Action::Broadcast(room, _) => assert_eq!(room, "other"),
        other => panic!("expected Broadcast, got {other:?}"),
    }
    assert_eq!(store.get("other").len(), 1);
    assert!(store.get("lobby").is_empty());
    match &session.membership {
        Membership::MemberOf(room) => assert_eq!(room, "lobby"),
        Membership::Unjoined => panic!("membership must be untouched"),
    }
}

#[test]
fn message_needs_no_prior_join() {
    let mut store = MessageStore::new();
    let mut session = Session { membership: Membership::Unjoined };
    let actions = handle_event(
        "c9",
        Event::Message { room: "lobby".to_string(), text: "drive-by".to_string() },
        42,
        &mut session,
        &mut store,
    );
    assert_eq!(actions.len(), 1);
    assert_eq!(store.get("lobby").len(), 1);
    assert!(matches!(session.membership, Membership::Unjoined));
}

#[test]
fn rejoin_switches_membership() {
    let mut store = MessageStore::new();
    let mut session = Session { membership: Membership::Unjoined };
    handle_event("c1", Event::Join("lobby".to_string()), 10, &mut session, &mut store);
    let actions = handle_event("c1", Event::Join("kitchen".to_string()), 11, &mut session, &mut store);
    assert!(matches!(actions[0], Action::LeaveAllGroups));
    match &actions[1] {
        Action::JoinGroup(room) => assert_eq!(room, "kitchen"),
        other => panic!("expected JoinGroup, got {other:?}"),
    }
    match &session.membership {
        Membership::MemberOf(room) => assert_eq!(room, "kitchen"),
        Membership::Unjoined => panic!("join must set membership"),
    }
}

#[test]
fn anon_labels_are_stable_and_distinct() {
    assert_eq!(anon_string("c1"), "anon-c1");
    assert_eq!(anon_string("c1"), anon_string("c1"));
    assert_ne!(anon_string("c1"), anon_string("c2"));
    assert_ne!(anon_string(""), anon_string("x"));
}

#[test]
fn disconnect_clears_membership() {
    let mut session = Session { membership: Membership::MemberOf("lobby".to_string()) };
    handle_disconnect(&mut session);
    assert!(matches!(session.membership, Membership::Unjoined));
}

#[test]
fn clock_stamped_message_carries_the_label() {
    let mut store = MessageStore::new();
    let mut session = Session { membership: Membership::Unjoined };
    let actions = handle(
        "c1",
        Event::Message { room: "lobby".to_string(), text: "hi".to_string() },
        &mut session,
        &mut store,
    );
    assert_eq!(actions.len(), 1);
    match &actions[0] {
        Action::Broadcast(room, message) => {
            assert_eq!(room, "lobby");
            assert_eq!(message.text, "hi");
            assert_eq!(message.user, "anon-c1");
        }
        other => panic!("expected Broadcast, got {other:?}"),
    }
    assert_eq!(store.get("lobby").len(), 1);
}

#[test]
fn room_names_are_not_validated() {
    let mut store = MessageStore::new();
    let mut session = Session { membership: Membership::Unjoined };
    let actions = handle_event("c1", Event::Join(String::new()), 1, &mut session, &mut store);
    assert_eq!(actions.len(), 3);
    match &session.membership {
        Membership::MemberOf(room) => assert_eq!(room, ""),
        Membership::Unjoined => panic!("join must set membership"),
    }
    handle_event(
        "c1",
        Event::Message { room: String::new(), text: "hi".to_string() },
        2,
        &mut session,
        &mut store,
    );
    assert_eq!(store.get("").len(), 1);
    assert!(store.get("lobby").is_empty());
}

#[test]
fn empty_text_is_relayed_as_sent() {
    let mut store = MessageStore::new();
    let mut session = Session { membership: Membership::Unjoined };
    let actions = handle_event(
        "c1",
        Event::Message { room: "lobby".to_string(), text: String::new() },
        3,
        &mut session,
        &mut store,
    );
    match &actions[0] {
        Action::Broadcast(_, message) => assert_eq!(message.text, ""),
        other => panic!("expected Broadcast, got {other:?}"),
    }
    let history = store.get("lobby");
    assert_eq!(history.len(), 1);
    assert_eq!(history[0].text, "");
}
