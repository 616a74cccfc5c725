use tabletop_session::hub::SessionHub;
use tabletop_session::messaging::{SystemRequest, SystemResponse};
use tabletop_session::modifier::ModifierMap;
use tabletop_session::session::handle_request;
use tabletop_session::tag::Tag;

fn chat(username: &str, role: &str, content: &str) -> SystemRequest {
    SystemRequest::Chat {
        username: username.to_string(),
        role: role.to_string(),
        content: content.to_string(),
    }
}

#[test]
fn chat_request_echoes_verbatim() {
    let response = handle_request(chat("alice", "player", "hi")).expect("chat yields a response");
    match response {
        SystemResponse::Chat { username, role, content } => {
            assert_eq!(username, "alice");
            assert_eq!(role, "player");
            assert_eq!(content, "hi");
        },
        _ => panic!("expected a chat response"),
    }
}

#[test]
fn roll_with_empty_map_totals_the_dice() {
    let request = SystemRequest::Roll {
        username: "bob".to_string(),
        modifiers: ModifierMap::default(),
    };
    let response = handle_request(request).expect("roll yields a response");
    match response {
        SystemResponse::Roll { dice_values, username, modifiers, total } => {
            assert!((1..=6).contains(&dice_values.0));
            assert!((1..=6).contains(&dice_values.1));
            assert_eq!(total, dice_values.0 + dice_values.1);
            assert_eq!(username, "bob");
            assert_eq!(modifiers.get_modifiers().len(), 0);
        },
        _ => panic!("expected a roll response"),
    }
}

#[test]
fn roll_echoes_the_modifier_map_and_applies_it() {
    let mut mods = ModifierMap::default();
    mods.add_positive_tag(Tag::new_power("Strong"));
    mods.add_burned_tag(Tag::new_power("Agile"));
    mods.add_negative_tag(Tag::new_weakness("Clumsy"));
    mods.add_negative_tag(Tag::new_status("Poisoned", 4));
    let request = SystemRequest::Roll { username: "bob".to_string(), modifiers: mods };
    let response = handle_request(request).expect("roll yields a response");
    match response {
        SystemResponse::Roll { dice_values, modifiers, total, .. } => {
            // +1 + 3 - 1 - 4 = -1
            assert_eq!(total, dice_values.0 + dice_values.1 - 1);
            assert_eq!(modifiers.get_modifiers().len(), 4);
        },
        _ => panic!("expected a roll response"),
    }
}

#[test]
fn reserved_update_requests_produce_no_response() {
    assert!(handle_request(SystemRequest::SceneUpdate {}).is_none());
    assert!(handle_request(SystemRequest::HeroUpdate {}).is_none());
    assert!(handle_request(SystemRequest::ChallengeUpdate {}).is_none());
    assert!(handle_request(SystemRequest::FellowshipUpdate {}).is_none());
}

fn expect_chat_content(hub: &SessionHub, index: usize) -> String {
    match hub.message(index) {
        SystemResponse::Chat { content, .. } => content.clone(),
        _ => panic!("expected a chat response"),
    }
}

#[test]
fn every_subscriber_receives_a_broadcast_in_the_same_order() {
    let mut hub = SessionHub::new(100);
    let a = hub.connect();
    let b = hub.connect();

    let first = handle_request(chat("alice", "player", "hi")).unwrap();
    hub.publish(first);
    let second = handle_request(chat("bob", "narrator", "welcome")).unwrap();
    hub.publish(second);

    for client in [a, b] {
        let i = hub.poll(client).expect("first message is waiting");
        assert_eq!(expect_chat_content(&hub, i), "hi");
        let j = hub.poll(client).expect("second message is waiting");
        assert_eq!(expect_chat_content(&hub, j), "welcome");
        assert!(j > i);
        assert!(hub.poll(client).is_none());
    }
}

#[test]
fn late_subscriber_gets_no_backfill() {
    let mut hub = SessionHub::new(100);
    let a = hub.connect();
    hub.publish(handle_request(chat("alice", "player", "one")).unwrap());
    hub.publish(handle_request(chat("alice", "player", "two")).unwrap());

    let c = hub.connect();
    assert!(hub.poll(c).is_none());

    hub.publish(handle_request(chat("alice", "player", "three")).unwrap());
    let i = hub.poll(c).expect("the message published after connecting");
    assert_eq!(expect_chat_content(&hub, i), "three");
    assert!(hub.poll(c).is_none());

    // the early subscriber still sees everything
    let i = hub.poll(a).unwrap();
    assert_eq!(expect_chat_content(&hub, i), "one");
}

#[test]
fn a_dropped_connection_does_not_stop_other_broadcasts() {
    let mut hub = SessionHub::new(100);
    let a = hub.connect();
    let b = hub.connect();

    // a's payload failed to decode: the server closes that connection only
    hub.disconnect(a);
    assert!(hub.poll(a).is_none());

    let response = handle_request(chat("bob", "player", "still here")).unwrap();
    hub.publish(response);
    let i = hub.poll(b).expect("the valid request was broadcast");
    assert_eq!(expect_chat_content(&hub, i), "still here");
    assert!(hub.poll(a).is_none());
}

#[test]
fn a_lagging_subscriber_skips_what_the_buffer_dropped() {
    let mut hub = SessionHub::new(2);
    let a = hub.connect();
    hub.publish(handle_request(chat("alice", "player", "one")).unwrap());
    hub.publish(handle_request(chat("alice", "player", "two")).unwrap());
    hub.publish(handle_request(chat("alice", "player", "three")).unwrap());
    hub.publish(handle_request(chat("alice", "player", "four")).unwrap());

    // only the last two fit the buffer: the first two are lost to `a`
    let i = hub.poll(a).expect("a message is waiting");
    assert_eq!(expect_chat_content(&hub, i), "three");
    let j = hub.poll(a).expect("a message is waiting");
    assert_eq!(expect_chat_content(&hub, j), "four");
    assert!(hub.poll(a).is_none());
}

#[test]
fn disconnecting_an_unknown_id_changes_nothing() {
    let mut hub = SessionHub::new(100);
    let a = hub.connect();
    hub.disconnect(77);
    hub.publish(handle_request(chat("alice", "player", "hi")).unwrap());
    assert!(hub.poll(a).is_some());
}
