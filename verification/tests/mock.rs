use zero_drift_chat::messaging::provider::{MessagingProvider, ProviderError, ProviderEvent};
use zero_drift_chat::messaging::router::MessageRouter;
use zero_drift_chat::messaging::types::{
    AuthStatus, MessageContent, MessageStatus, Platform, Timestamp,
};
use zero_drift_chat::providers::mock::{
    bootstrap_events, generate_chats, generate_seed_messages, make_incoming, MockProvider,
};

#[test]
fn made_up_chats() {
    let chats = generate_chats(5);
    assert_eq!(chats.len(), 5);
    let names: Vec<&str> = chats.iter().map(|c| c.name.as_str()).collect();
    assert_eq!(names, vec!["Alice Johnson", "Bob Smith", "Team Standup", "Eve Martinez", "Charlie & Dave"]);
    let ids: Vec<&str> = chats.iter().map(|c| c.id.as_str()).collect();
    assert_eq!(ids, vec!["mock-chat-0", "mock-chat-1", "mock-chat-2", "mock-chat-3", "mock-chat-4"]);
    let groups: Vec<bool> = chats.iter().map(|c| c.is_group).collect();
    assert_eq!(groups, vec![false, false, true, false, true]);
    assert!(chats.iter().all(|c| c.platform == Platform::Mock && c.unread_count == 0));
    assert!(chats.iter().all(|c| c.last_message.is_none() && c.display_name.is_none()));
    // No more chats than there are names.
    let all = generate_chats(100);
    assert_eq!(all.len(), 8);
    assert_eq!(all[7].name, "Jane Doe");
    assert_eq!(all[5].name, "Project Alpha");
    assert_eq!(all[6].name, "Mom");
    assert!(generate_chats(0).is_empty());
}

#[test]
fn made_up_history() {
    let now = Timestamp { secs: 1_000_000, nanos: 42 };
    let chats = generate_chats(2);
    let seeds = generate_seed_messages(&chats, now);
    assert_eq!(seeds.len(), 13);
    let first = &seeds[0];
    assert_eq!(first.id, "mock-seed-0-0");
    assert_eq!(first.chat_id, "mock-chat-0");
    assert_eq!(first.sender, "You");
    assert!(first.is_outgoing);
    assert_eq!(first.content.as_text(), "Hey, how's it going?");
    assert_eq!(first.timestamp, Timestamp { secs: 1_000_000 - 86_400, nanos: 42 });
    assert_eq!(first.status, MessageStatus::Read);
    assert_eq!(first.platform, Platform::Mock);
    let second = &seeds[1];
    assert_eq!(second.id, "mock-seed-0-1");
    assert_eq!(second.sender, "Alice Johnson");
    assert!(!second.is_outgoing);
    assert_eq!(second.content.as_text(), "Sounds good to me!");
    assert_eq!(second.timestamp.secs, 1_000_000 - 86_400 + 900);
    assert!(seeds[3].is_outgoing);
    assert_eq!(seeds[6].content.as_text(), "Can you review my PR?");
    assert_eq!(seeds[6].timestamp.secs, 1_000_000 - 86_400 + 6 * 900);
    let other = &seeds[7];
    assert_eq!(other.id, "mock-seed-1-0");
    assert_eq!(other.chat_id, "mock-chat-1");
    assert_eq!(other.content.as_text(), "Let's catch up later today");
    assert_eq!(seeds[12].id, "mock-seed-1-5");
    assert_eq!(seeds[12].content.as_text(), "I'll send you the details");
    // Every text and every chat has its history.
    let all = generate_chats(8);
    let everything = generate_seed_messages(&all, now);
    assert_eq!(everything.len(), 7 + 6 + 7 + 6 + 7 + 6 + 6 + 7);
    assert_eq!(everything[everything.len() - 1].content.as_text(), "Great work on the presentation!");
}

#[test]
fn what_a_starting_backend_announces() {
    let now = Timestamp { secs: 50, nanos: 0 };
    let chats = generate_chats(1);
    let seeds = generate_seed_messages(&chats, now);
    let events = bootstrap_events(&chats, &seeds);
    assert_eq!(events.len(), 2 + 7);
    assert!(matches!(events[0], ProviderEvent::AuthStatusChanged(Platform::Mock, AuthStatus::Authenticated)));
    match &events[1] {
        ProviderEvent::ChatsUpdated(batch) => assert!(batch == &chats),
        other => panic!("not a batch of chats: {:?}", other),
    }
    for (i, event) in events[2..].iter().enumerate() {
        match event {
            ProviderEvent::NewMessage(msg) => assert!(msg == &seeds[i]),
            other => panic!("not a message: {:?}", other),
        }
    }
}

#[test]
fn the_backend_through_its_life() {
    let mut router: MessageRouter<MockProvider> = MessageRouter::new();
    let sink = router.sink();
    let mut mock = MockProvider::new(2, 9);
    assert_eq!(mock.name(), "Mock");
    assert_eq!(mock.platform(), Platform::Mock);
    assert_eq!(mock.auth_status(), AuthStatus::NotAuthenticated);
    assert_eq!(mock.message_interval_secs(), 9);
    assert!(mock.generator().is_none());
    assert!(mock.get_chats().unwrap().is_empty());
    assert!(matches!(
        mock.send_message("mock-chat-0", MessageContent::Text("early".to_string())),
        Err(ProviderError::NotConnected)
    ));

    assert!(mock.start(sink).is_ok());
    assert_eq!(mock.auth_status(), AuthStatus::Authenticated);
    assert_eq!(mock.get_chats().unwrap().len(), 2);
    assert_eq!(mock.get_messages("mock-chat-1").unwrap().len(), 6);
    assert_eq!(router.drain(100).len(), 2 + 13);

    let sent = mock.send_message("mock-chat-1", MessageContent::Text("hello".to_string())).unwrap();
    assert_eq!(sent.chat_id, "mock-chat-1");
    assert_eq!(sent.sender, "You");
    assert_eq!(sent.status, MessageStatus::Sent);
    assert!(sent.is_outgoing);
    assert_eq!(sent.platform, Platform::Mock);
    assert_eq!(sent.id.len(), 36);
    let mine = mock.get_messages("mock-chat-1").unwrap();
    assert_eq!(mine.len(), 7);
    assert!(mine[6] == sent);
    let echoed = router.drain(100);
    assert_eq!(echoed.len(), 1);
    match &echoed[0] {
        ProviderEvent::NewMessage(msg) => assert!(msg == &sent),
        other => panic!("not a message: {:?}", other),
    }

    let generator = mock.generator().unwrap();
    for _ in 0..20 {
        assert!(generator.emit());
    }
    let made_up = router.drain(100);
    assert_eq!(made_up.len(), 20);
    for event in &made_up {
        match event {
            ProviderEvent::NewMessage(msg) => {
                assert!(msg.chat_id == "mock-chat-0" || msg.chat_id == "mock-chat-1");
                assert!(!msg.is_outgoing);
                assert_eq!(msg.status, MessageStatus::Delivered);
                assert!(msg.sender == "Alice Johnson" || msg.sender == "Bob Smith");
            }
            other => panic!("not a message: {:?}", other),
        }
    }

    assert!(mock.stop().is_ok());
    assert_eq!(mock.auth_status(), AuthStatus::NotAuthenticated);
    assert!(mock.generator().is_none());
    assert!(matches!(
        mock.send_message("mock-chat-1", MessageContent::Text("late".to_string())),
        Err(ProviderError::NotConnected)
    ));
    assert_eq!(mock.get_messages("mock-chat-1").unwrap().len(), 7);
    // Once the router is gone, the generator has no point in going on.
    drop(router);
    assert!(!generator.emit());
}

#[test]
fn a_random_message_from_what_was_drawn() {
    let chats = generate_chats(3);
    let now = Timestamp { secs: 9, nanos: 1 };
    let msg = make_incoming(&chats, 2, 7, "id-1".to_string(), now);
    assert_eq!(msg.id, "id-1");
    assert_eq!(msg.chat_id, "mock-chat-2");
    assert_eq!(msg.sender, "Team Standup");
    assert_eq!(msg.content.as_text(), "Lunch?");
    assert_eq!(msg.timestamp, now);
    assert_eq!(msg.status, MessageStatus::Delivered);
    assert!(!msg.is_outgoing);
}
