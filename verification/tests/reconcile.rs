use zero_drift_chat::app::apply_event;
use zero_drift_chat::messaging::provider::ProviderEvent;
use zero_drift_chat::messaging::types::{
    AuthStatus, MessageContent, MessageStatus, Platform, Timestamp, UnifiedChat, UnifiedMessage,
};
use zero_drift_chat::reconcile::{find_chat, find_message, merge_chat, merge_chats, note_message, set_status};
use zero_drift_chat::storage::db::Database;
use zero_drift_chat::tui::app_state::AppState;

fn chat(id: &str, name: &str) -> UnifiedChat {
    UnifiedChat {
        id: id.to_string(),
        platform: Platform::WhatsApp,
        name: name.to_string(),
        display_name: None,
        last_message: None,
        unread_count: 0,
        is_group: false,
    }
}

fn message(id: &str, chat_id: &str, text: &str, is_outgoing: bool) -> UnifiedMessage {
    UnifiedMessage {
        id: id.to_string(),
        chat_id: chat_id.to_string(),
        platform: Platform::WhatsApp,
        sender: if is_outgoing { "You".to_string() } else { "Alice".to_string() },
        content: MessageContent::Text(text.to_string()),
        timestamp: Timestamp { secs: 1_700_000_000, nanos: 0 },
        status: MessageStatus::Delivered,
        is_outgoing,
    }
}

const NOW: Timestamp = Timestamp { secs: 1_700_000_100, nanos: 0 };

fn state_with(chats: Vec<UnifiedChat>) -> AppState {
    let mut state = AppState::new();
    state.chats = chats;
    state
}

#[test]
fn same_batch_twice_is_as_once() {
    let batch = vec![
        UnifiedChat { last_message: Some("hi".to_string()), ..chat("a", "Alice") },
        chat("b", "15550001111"),
        UnifiedChat { last_message: Some("later".to_string()), ..chat("a", "+15559990000") },
        chat("c", "Carol"),
        chat("b", "Bob"),
        chat("b", "15550002222"),
    ];
    let mut once = vec![chat("b", "15550000000"), chat("z", "Zed")];
    merge_chats(&mut once, &batch);
    let mut twice = once.clone();
    merge_chats(&mut twice, &batch);
    assert_eq!(once.len(), 4);
    assert!(once == twice);
    assert_eq!(once[0].name, "Bob");
    assert_eq!(once[2].id, "a");
    assert_eq!(once[2].name, "Alice");
    assert_eq!(once[2].last_message.as_deref(), Some("later"));
}

#[test]
fn absent_preview_keeps_the_one_there_is() {
    let mut chats = vec![UnifiedChat { last_message: Some("old".to_string()), ..chat("a", "Alice") }];
    merge_chat(&mut chats, chat("a", "Alice"));
    assert_eq!(chats[0].last_message.as_deref(), Some("old"));
    merge_chat(&mut chats, UnifiedChat { last_message: Some("new".to_string()), ..chat("a", "Alice") });
    assert_eq!(chats[0].last_message.as_deref(), Some("new"));
}

#[test]
fn merge_changes_only_name_and_preview_of_a_known_chat() {
    let mut chats = vec![UnifiedChat {
        display_name: Some("Mine".to_string()),
        unread_count: 4,
        is_group: true,
        ..chat("a", "Alice")
    }];
    let incoming = UnifiedChat {
        platform: Platform::Slack,
        display_name: Some("Theirs".to_string()),
        unread_count: 9,
        ..chat("a", "Alicia")
    };
    merge_chat(&mut chats, incoming);
    assert_eq!(chats[0].name, "Alicia");
    assert_eq!(chats[0].display_name.as_deref(), Some("Mine"));
    assert_eq!(chats[0].unread_count, 4);
    assert!(chats[0].is_group);
    assert_eq!(chats[0].platform, Platform::WhatsApp);
}

#[test]
fn a_new_chat_enters_without_a_user_name() {
    let mut chats = vec![chat("a", "Alice")];
    merge_chat(&mut chats, UnifiedChat { display_name: Some("Theirs".to_string()), ..chat("b", "Bob") });
    assert_eq!(chats.len(), 2);
    assert_eq!(chats[1].id, "b");
    assert_eq!(chats[1].display_name, None);
}

#[test]
fn raw_name_replaces_raw_name() {
    let mut chats = vec![chat("a", "15551234567")];
    merge_chat(&mut chats, chat("a", "+15557654321"));
    assert_eq!(chats[0].name, "+15557654321");
}

#[test]
fn positions_of_chats_and_messages() {
    let chats = vec![chat("a", "A"), chat("b", "B"), chat("a", "A2")];
    assert_eq!(find_chat(&chats, "a"), 0);
    assert_eq!(find_chat(&chats, "b"), 1);
    assert_eq!(find_chat(&chats, "x"), 3);
    let messages = vec![message("m1", "a", "x", false), message("m2", "a", "y", false)];
    assert_eq!(find_message(&messages, "m2"), 1);
    assert_eq!(find_message(&messages, "m3"), 2);
}

#[test]
fn incoming_message_of_a_chat_off_screen_counts_once() {
    let mut state = state_with(vec![chat("a", "Alice"), chat("b", "Bob")]);
    let mut db = Database::open_in_memory();
    state.chats[1].unread_count = 2;
    // The chat on screen is the first one.
    apply_event(&mut state, &mut db, ProviderEvent::NewMessage(message("m1", "b", "hello", false)), NOW);
    assert_eq!(state.chats[1].unread_count, 3);
    assert_eq!(state.chats[0].unread_count, 0);
    assert_eq!(state.chats[1].last_message.as_deref(), Some("hello"));
    assert!(state.messages.is_empty());
}

#[test]
fn incoming_message_of_the_chat_on_screen_is_shown_and_not_counted() {
    let mut state = state_with(vec![chat("a", "Alice"), chat("b", "Bob")]);
    let mut db = Database::open_in_memory();
    state.scroll_offset = 9;
    state.chats[0].unread_count = 1;
    let msg = message("m1", "a", "hello", false);
    apply_event(&mut state, &mut db, ProviderEvent::NewMessage(msg.clone()), NOW);
    assert_eq!(state.chats[0].unread_count, 1);
    assert_eq!(state.chats[0].last_message.as_deref(), Some("hello"));
    assert_eq!(state.messages.len(), 1);
    assert!(state.messages[0] == msg);
    assert_eq!(state.scroll_offset, 0);
}

#[test]
fn outgoing_message_is_never_counted() {
    let mut state = state_with(vec![chat("a", "Alice"), chat("b", "Bob")]);
    let mut db = Database::open_in_memory();
    apply_event(&mut state, &mut db, ProviderEvent::NewMessage(message("m1", "b", "on my way", true)), NOW);
    assert_eq!(state.chats[1].unread_count, 0);
    assert_eq!(state.chats[1].last_message.as_deref(), Some("on my way"));
}

#[test]
fn unread_count_stops_at_the_top_of_its_range() {
    let mut chats = vec![UnifiedChat { unread_count: u32::MAX, ..chat("a", "Alice") }];
    let at = note_message(&mut chats, &message("m1", "a", "x", false), false);
    assert_eq!(at, 0);
    assert_eq!(chats[0].unread_count, u32::MAX);
}

#[test]
fn message_of_an_unknown_chat_brings_the_chat() {
    let mut state = state_with(vec![chat("a", "Alice")]);
    let mut db = Database::open_in_memory();
    apply_event(&mut state, &mut db, ProviderEvent::NewMessage(message("m1", "new", "psst", false)), NOW);
    assert_eq!(state.chats.len(), 2);
    assert_eq!(state.chats[1].id, "new");
    assert_eq!(state.chats[1].name, "");
    assert_eq!(state.chats[1].platform, Platform::WhatsApp);
    assert_eq!(state.chats[1].unread_count, 1);
    assert_eq!(state.chats[1].last_message.as_deref(), Some("psst"));
    assert_eq!(state.chats[1].display_name, None);
    let stored = db.get_all_chats();
    assert_eq!(stored.len(), 1);
    assert!(stored[0] == state.chats[1]);
    // The first refresh names the chat, raw as the name may be.
    let named = ProviderEvent::ChatsUpdated(vec![chat("new", "15550001111")]);
    apply_event(&mut state, &mut db, named, NOW);
    assert_eq!(state.chats[1].name, "15550001111");
    assert_eq!(state.chats[1].unread_count, 1);
}

#[test]
fn status_update_reaches_the_loaded_message_and_the_store() {
    let mut state = state_with(vec![chat("a", "Alice")]);
    let mut db = Database::open_in_memory();
    apply_event(&mut state, &mut db, ProviderEvent::NewMessage(message("m1", "a", "x", true)), NOW);
    apply_event(&mut state, &mut db, ProviderEvent::NewMessage(message("m2", "a", "y", true)), NOW);
    let update = ProviderEvent::MessageStatusUpdate { message_id: "m2".to_string(), status: MessageStatus::Read };
    apply_event(&mut state, &mut db, update, NOW);
    assert_eq!(state.messages[0].status, MessageStatus::Delivered);
    assert_eq!(state.messages[1].status, MessageStatus::Read);
    let stored = db.get_messages_for_chat("a");
    assert_eq!(stored[1].status, MessageStatus::Read);

    let mut loaded = vec![message("m1", "a", "x", true)];
    set_status(&mut loaded, "missing", MessageStatus::Failed);
    assert_eq!(loaded[0].status, MessageStatus::Delivered);
}

#[test]
fn connection_events_touch_only_the_flags() {
    let mut state = state_with(vec![chat("a", "Alice")]);
    let mut db = Database::open_in_memory();
    let before = state.chats.clone();
    apply_event(&mut state, &mut db, ProviderEvent::AuthQrCode("2@abc".to_string()), NOW);
    assert_eq!(state.qr_code.as_deref(), Some("2@abc"));
    let connected = ProviderEvent::AuthStatusChanged(Platform::WhatsApp, AuthStatus::Authenticated);
    let writes = apply_event(&mut state, &mut db, connected, NOW);
    assert!(writes.is_empty());
    assert!(state.whatsapp_connected);
    assert_eq!(state.qr_code, None);
    let pairing = ProviderEvent::AuthStatusChanged(Platform::WhatsApp, AuthStatus::Authenticating);
    apply_event(&mut state, &mut db, pairing, NOW);
    assert!(state.whatsapp_connected);
    let other = ProviderEvent::AuthStatusChanged(Platform::Mock, AuthStatus::Failed);
    apply_event(&mut state, &mut db, other, NOW);
    assert!(state.whatsapp_connected);
    let failed = ProviderEvent::AuthStatusChanged(Platform::WhatsApp, AuthStatus::Failed);
    apply_event(&mut state, &mut db, failed, NOW);
    assert!(!state.whatsapp_connected);
    assert!(state.chats == before);
    assert!(db.get_all_chats().is_empty());
}

#[test]
fn the_rows_written_rebuild_the_store() {
    let mut state = state_with(vec![chat("a", "Alice")]);
    let mut db = Database::open_in_memory();
    let mut writes = Vec::new();
    let batch = vec![chat("a", "Alice"), chat("b", "Bob")];
    writes.extend(apply_event(&mut state, &mut db, ProviderEvent::ChatsUpdated(batch), NOW));
    writes.extend(apply_event(&mut state, &mut db, ProviderEvent::NewMessage(message("m1", "b", "one", false)), NOW));
    writes.extend(apply_event(&mut state, &mut db, ProviderEvent::NewMessage(message("m1", "b", "one again", false)), NOW));
    let later = Timestamp { secs: NOW.secs + 5, nanos: 0 };
    writes.extend(apply_event(&mut state, &mut db, ProviderEvent::NewMessage(message("m2", "a", "two", true)), later));
    let copy = Database::restore(writes);
    assert!(copy.get_all_chats() == db.get_all_chats());
    assert!(copy.get_messages_for_chat("a") == db.get_messages_for_chat("a"));
    assert!(copy.get_messages_for_chat("b") == db.get_messages_for_chat("b"));
    assert_eq!(db.get_messages_for_chat("b").len(), 1);
    assert_eq!(db.get_all_chats()[0].id, "a");
    assert_eq!(db.get_all_chats()[1].unread_count, 2);
}
