use zero_drift_chat::messaging::provider::{ProviderError, ProviderEvent};
use zero_drift_chat::messaging::router::MessageRouter;
use zero_drift_chat::messaging::types::{
    AuthStatus, MessageContent, MessageStatus, Platform, Timestamp,
};
use zero_drift_chat::providers::mock::MockProvider;
use zero_drift_chat::providers::whatsapp::convert::{
    chat_id_to_jid, jid_to_chat_id, jid_to_display_name, outgoing_text, sent_message,
    wa_message_to_unified, WaMessage,
};
use zero_drift_chat::providers::whatsapp::{events_for, WaEvent, WaMessageInfo, WhatsAppProvider};

fn empty_message() -> WaMessage {
    WaMessage {
        text: None,
        caption: None,
        has_image: false,
        has_document: false,
        has_audio: false,
        has_video: false,
        has_sticker: false,
        has_contact: false,
        has_location: false,
    }
}

fn text_message(text: &str) -> WaMessage {
    WaMessage { text: Some(text.to_string()), ..empty_message() }
}

const WHEN: Timestamp = Timestamp { secs: 1_700_000_000, nanos: 0 };

fn info(push_name: &str, is_from_me: bool) -> WaMessageInfo {
    WaMessageInfo {
        id: "3EB0".to_string(),
        push_name: push_name.to_string(),
        timestamp: WHEN,
        chat: "15551234567@s.whatsapp.net".to_string(),
        sender: "15557654321@s.whatsapp.net".to_string(),
        is_from_me,
        is_group: false,
    }
}

#[test]
fn chat_ids_and_addresses() {
    assert_eq!(jid_to_chat_id("15551234567@s.whatsapp.net"), "wa-15551234567@s.whatsapp.net");
    assert_eq!(chat_id_to_jid("wa-15551234567@s.whatsapp.net").as_deref(), Some("15551234567@s.whatsapp.net"));
    assert_eq!(chat_id_to_jid("wa-").as_deref(), Some(""));
    assert_eq!(chat_id_to_jid("mock-chat-1"), None);
    assert_eq!(chat_id_to_jid("wa"), None);
    assert_eq!(chat_id_to_jid(""), None);
    assert_eq!(jid_to_display_name("15551234567@s.whatsapp.net"), "15551234567");
    assert_eq!(jid_to_display_name("12345-678@g.us"), "12345-678");
    assert_eq!(jid_to_display_name("no-server"), "no-server");
    assert_eq!(jid_to_display_name("a@b@c"), "a");
    assert_eq!(jid_to_display_name("@lid"), "");
    assert_eq!(jid_to_display_name(""), "");
}

#[test]
fn content_of_a_whatsapp_message() {
    let unify = |msg: &WaMessage| {
        wa_message_to_unified(msg, "Alice", "id", WHEN, "c@s.whatsapp.net", "s@s.whatsapp.net", false, false)
            .map(|m| m.content.as_text().to_string())
    };
    assert_eq!(unify(&text_message("hi")).as_deref(), Some("hi"));
    let both = WaMessage { caption: Some("cap".to_string()), has_image: true, ..text_message("hi") };
    assert_eq!(unify(&both).as_deref(), Some("hi"));
    let captioned = WaMessage { caption: Some("cap".to_string()), has_image: true, ..empty_message() };
    assert_eq!(unify(&captioned).as_deref(), Some("cap"));
    assert_eq!(unify(&WaMessage { has_image: true, has_video: true, ..empty_message() }).as_deref(), Some("[Image]"));
    assert_eq!(unify(&WaMessage { has_document: true, has_audio: true, ..empty_message() }).as_deref(), Some("[Document]"));
    assert_eq!(unify(&WaMessage { has_audio: true, ..empty_message() }).as_deref(), Some("[Audio]"));
    assert_eq!(unify(&WaMessage { has_video: true, ..empty_message() }).as_deref(), Some("[Video]"));
    assert_eq!(unify(&WaMessage { has_sticker: true, ..empty_message() }).as_deref(), Some("[Sticker]"));
    assert_eq!(unify(&WaMessage { has_contact: true, ..empty_message() }).as_deref(), Some("[Contact]"));
    assert_eq!(unify(&WaMessage { has_location: true, ..empty_message() }).as_deref(), Some("[Location]"));
    assert_eq!(unify(&empty_message()), None);
}

#[test]
fn a_whatsapp_message_in_the_unified_timeline() {
    let msg = text_message("hello");
    let incoming = wa_message_to_unified(&msg, "Alice", "3EB0", WHEN, "c@g.us", "s@s.whatsapp.net", false, true).unwrap();
    assert_eq!(incoming.id, "3EB0");
    assert_eq!(incoming.chat_id, "wa-c@g.us");
    assert_eq!(incoming.platform, Platform::WhatsApp);
    assert_eq!(incoming.sender, "Alice");
    assert_eq!(incoming.timestamp, WHEN);
    assert_eq!(incoming.status, MessageStatus::Delivered);
    assert!(!incoming.is_outgoing);
    let nameless = wa_message_to_unified(&msg, "", "3EB0", WHEN, "c@g.us", "s@s.whatsapp.net", false, true).unwrap();
    assert_eq!(nameless.sender, "s@s.whatsapp.net");
    let mine = wa_message_to_unified(&msg, "Alice", "3EB0", WHEN, "c@g.us", "s@s.whatsapp.net", true, true).unwrap();
    assert_eq!(mine.sender, "You");
    assert!(mine.is_outgoing);
}

fn only_chat(event: &ProviderEvent) -> zero_drift_chat::messaging::types::UnifiedChat {
    match event {
        ProviderEvent::ChatsUpdated(batch) => {
            assert_eq!(batch.len(), 1);
            batch[0].clone()
        }
        other => panic!("not a batch of chats: {:?}", other),
    }
}

#[test]
fn a_message_announces_its_chat_first() {
    let events = events_for(&WaEvent::Message { msg: text_message("hey"), info: info("Alice", false) });
    assert_eq!(events.len(), 2);
    let chat = only_chat(&events[0]);
    assert_eq!(chat.id, "wa-15551234567@s.whatsapp.net");
    assert_eq!(chat.name, "Alice");
    assert_eq!(chat.platform, Platform::WhatsApp);
    assert_eq!(chat.last_message.as_deref(), Some("hey"));
    assert_eq!(chat.unread_count, 1);
    assert!(!chat.is_group);
    assert_eq!(chat.display_name, None);
    match &events[1] {
        ProviderEvent::NewMessage(msg) => {
            assert_eq!(msg.id, "3EB0");
            assert_eq!(msg.chat_id, chat.id);
            assert_eq!(msg.sender, "Alice");
        }
        other => panic!("not a message: {:?}", other),
    }
    let nameless = events_for(&WaEvent::Message { msg: text_message("hey"), info: info("", false) });
    assert_eq!(only_chat(&nameless[0]).name, "15557654321");
    let mine = events_for(&WaEvent::Message { msg: text_message("hey"), info: info("Me", true) });
    let chat = only_chat(&mine[0]);
    assert_eq!(chat.name, "15551234567");
    assert_eq!(chat.unread_count, 0);
    let group = WaMessageInfo { is_group: true, ..info("Alice", false) };
    assert!(only_chat(&events_for(&WaEvent::Message { msg: text_message("x"), info: group })[0]).is_group);
    assert!(events_for(&WaEvent::Message { msg: empty_message(), info: info("Alice", false) }).is_empty());
}

#[test]
fn reports_of_the_connection() {
    let code = events_for(&WaEvent::PairingQrCode { code: "2@xyz".to_string() });
    assert!(matches!(&code[..], [ProviderEvent::AuthQrCode(c)] if c == "2@xyz"));
    assert!(matches!(
        &events_for(&WaEvent::Connected)[..],
        [ProviderEvent::AuthStatusChanged(Platform::WhatsApp, AuthStatus::Authenticated)]
    ));
    assert!(matches!(
        &events_for(&WaEvent::LoggedOut)[..],
        [ProviderEvent::AuthStatusChanged(Platform::WhatsApp, AuthStatus::NotAuthenticated)]
    ));
    assert!(matches!(
        &events_for(&WaEvent::PairError)[..],
        [ProviderEvent::AuthStatusChanged(Platform::WhatsApp, AuthStatus::Failed)]
    ));
    assert!(events_for(&WaEvent::PairSuccess).is_empty());
    assert!(events_for(&WaEvent::Other).is_empty());
}

fn statuses(kind: &str) -> Vec<(String, MessageStatus)> {
    let ids = vec!["a".to_string(), "b".to_string()];
    events_for(&WaEvent::Receipt { kind: kind.to_string(), message_ids: ids })
        .into_iter()
        .map(|e| match e {
            ProviderEvent::MessageStatusUpdate { message_id, status } => (message_id, status),
            other => panic!("not a status: {:?}", other),
        })
        .collect()
}

#[test]
fn receipts_become_status_updates() {
    assert_eq!(
        statuses("Read"),
        vec![("a".to_string(), MessageStatus::Read), ("b".to_string(), MessageStatus::Read)]
    );
    assert_eq!(statuses("ReadSelf")[1].1, MessageStatus::Read);
    assert_eq!(statuses("Delivered")[0].1, MessageStatus::Delivered);
    assert_eq!(statuses("Played")[0].1, MessageStatus::Delivered);
    assert!(events_for(&WaEvent::Receipt { kind: "Read".to_string(), message_ids: Vec::new() }).is_empty());
}

#[test]
fn sending_through_whatsapp() {
    let mut router: MessageRouter<MockProvider> = MessageRouter::new();
    let mut wa = WhatsAppProvider::new("/tmp/session.db".to_string());
    assert_eq!(wa.session_db_path(), "/tmp/session.db");
    assert_eq!(wa.name(), "WhatsApp");
    assert_eq!(wa.platform(), Platform::WhatsApp);
    assert_eq!(wa.auth_status(), AuthStatus::NotAuthenticated);
    let content = MessageContent::Image { url: "u".to_string(), caption: None };
    assert!(matches!(wa.prepare_send("wa-1@s.whatsapp.net", &content), Err(ProviderError::NotConnected)));
    assert_eq!(wa.deliver(&WaEvent::Connected), 0);

    wa.begin_start(router.sink());
    assert_eq!(wa.auth_status(), AuthStatus::Authenticating);
    wa.finish_start();
    let pairing = router.drain(10);
    assert!(matches!(
        &pairing[..],
        [ProviderEvent::AuthStatusChanged(Platform::WhatsApp, AuthStatus::Authenticating)]
    ));
    let out = wa.prepare_send("wa-1@s.whatsapp.net", &content).unwrap();
    assert_eq!(out.jid, "1@s.whatsapp.net");
    assert_eq!(out.text, "[Image]");
    assert_eq!(outgoing_text(&MessageContent::Text("plain".to_string())), "plain");
    assert!(matches!(
        wa.prepare_send("mock-chat-0", &content),
        Err(ProviderError::InvalidChatId(id)) if id == "mock-chat-0"
    ));
    let sent = wa.finish_send("ABC".to_string(), "wa-1@s.whatsapp.net", content.clone(), WHEN);
    assert_eq!(sent.id, "ABC");
    assert_eq!(sent.chat_id, "wa-1@s.whatsapp.net");
    assert_eq!(sent.sender, "You");
    assert_eq!(sent.status, MessageStatus::Sent);
    assert!(sent.is_outgoing);
    assert!(sent.content == content);
    assert!(sent == sent_message("ABC".to_string(), "wa-1@s.whatsapp.net", content.clone(), WHEN));
    assert_eq!(router.drain(10).len(), 1);
    assert_eq!(wa.deliver(&WaEvent::Message { msg: text_message("x"), info: info("A", false) }), 2);
    assert_eq!(router.drain(10).len(), 2);

    wa.stop();
    assert_eq!(wa.auth_status(), AuthStatus::NotAuthenticated);
    assert!(matches!(wa.prepare_send("wa-1@s.whatsapp.net", &content), Err(ProviderError::NotConnected)));
    assert_eq!(wa.deliver(&WaEvent::Connected), 0);
}
