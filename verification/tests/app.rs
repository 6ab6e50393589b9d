use zero_drift_chat::app::{App, MAX_EVENTS_PER_TICK};
use zero_drift_chat::config::settings::AppConfig;
use zero_drift_chat::messaging::provider::ProviderEvent;
use zero_drift_chat::messaging::types::{
    MessageContent, MessageStatus, Platform, Timestamp, UnifiedChat, UnifiedMessage,
};
use zero_drift_chat::providers::mock::MockProvider;
use zero_drift_chat::storage::db::Database;
use zero_drift_chat::tui::app_state::{ActivePanel, InputMode, SettingsValue};
use zero_drift_chat::tui::keybindings::Action;

const NOW: Timestamp = Timestamp { secs: 1_700_000_000, nanos: 0 };

fn new_app() -> App<MockProvider> {
    App::new(AppConfig::default(), Database::open_in_memory())
}

fn started_app(chat_count: usize) -> App<MockProvider> {
    let mut app = new_app();
    app.router.register_provider(MockProvider::new(chat_count, 3));
    let started = app.start();
    assert!(started.iter().all(|s| s.is_ok()));
    app
}

fn incoming(id: &str, chat_id: &str, text: &str) -> ProviderEvent {
    ProviderEvent::NewMessage(UnifiedMessage {
        id: id.to_string(),
        chat_id: chat_id.to_string(),
        platform: Platform::Mock,
        sender: "Bob".to_string(),
        content: MessageContent::Text(text.to_string()),
        timestamp: NOW,
        status: MessageStatus::Delivered,
        is_outgoing: false,
    })
}

#[test]
fn a_tick_handles_no_more_than_its_cap() {
    let mut app = new_app();
    app.state.chats.push(UnifiedChat {
        id: "front".to_string(),
        platform: Platform::Mock,
        name: "Front".to_string(),
        display_name: None,
        last_message: None,
        unread_count: 0,
        is_group: false,
    });
    let sink = app.router.sink();
    for n in 0..75 {
        sink.send(incoming(&format!("m{}", n), "chat-x", &format!("text {}", n)));
    }
    assert_eq!(MAX_EVENTS_PER_TICK, 50);
    app.handle_tick(NOW);
    assert_eq!(app.state.chats.len(), 2);
    assert_eq!(app.state.chats[1].unread_count, 50);
    assert_eq!(app.state.chats[1].last_message.as_deref(), Some("text 49"));
    assert_eq!(app.db.get_messages_for_chat("chat-x").len(), 50);
    app.handle_tick(NOW);
    assert_eq!(app.state.chats[1].unread_count, 75);
    assert_eq!(app.state.chats[1].last_message.as_deref(), Some("text 74"));
    assert_eq!(app.db.get_messages_for_chat("chat-x").len(), 75);
    assert!(app.handle_tick(NOW).is_empty());
}

#[test]
fn starting_announces_chats_and_history() {
    let mut app = started_app(3);
    let writes = app.handle_tick(NOW);
    assert!(!writes.is_empty());
    assert_eq!(app.state.chats.len(), 3);
    assert_eq!(app.state.chats[0].id, "mock-chat-0");
    assert_eq!(app.state.chats[0].name, "Alice Johnson");
    assert_eq!(app.state.chats[2].name, "Team Standup");
    assert!(app.state.chats[2].is_group);
    // The first chat is on screen: its history is shown, and not counted.
    assert_eq!(app.state.messages.len(), 7);
    assert_eq!(app.state.chats[0].unread_count, 0);
    // Two of three of the other chats' messages are incoming.
    assert_eq!(app.state.chats[1].unread_count, 4);
    assert_eq!(app.db.get_messages_for_chat("mock-chat-1").len(), 6);
    let copy = Database::restore(writes);
    assert!(copy.get_all_chats() == app.db.get_all_chats());
}

#[test]
fn starting_loads_the_chats_of_the_store() {
    let mut db = Database::open_in_memory();
    let chat = UnifiedChat {
        id: "c1".to_string(),
        platform: Platform::Slack,
        name: "Team".to_string(),
        display_name: None,
        last_message: None,
        unread_count: 0,
        is_group: true,
    };
    db.upsert_chat(&chat, Timestamp { secs: 5, nanos: 0 });
    db.upsert_chat(&UnifiedChat { id: "c2".to_string(), ..chat.clone() }, Timestamp { secs: 9, nanos: 0 });
    let mut app: App<MockProvider> = App::new(AppConfig::default(), db);
    app.start();
    assert_eq!(app.state.chats.len(), 2);
    assert_eq!(app.state.chats[0].id, "c2");
    assert_eq!(app.state.chats[1].id, "c1");
}

#[test]
fn selecting_a_chat_loads_it_and_marks_it_read() {
    let mut app = started_app(3);
    app.handle_tick(NOW);
    assert_eq!(app.state.chats[1].unread_count, 4);
    let later = Timestamp { secs: NOW.secs + 60, nanos: 0 };
    let outcome = app.handle_action(Action::NextChat, later);
    assert_eq!(app.state.chat_list_state.selected, Some(1));
    assert_eq!(app.state.chats[1].unread_count, 0);
    assert_eq!(app.state.messages.len(), 6);
    assert!(app.state.messages.iter().all(|m| m.chat_id == "mock-chat-1"));
    assert_eq!(outcome.writes.len(), 1);
    assert_eq!(app.db.get_all_chats()[0].id, "mock-chat-1");
    assert_eq!(app.db.get_all_chats()[0].unread_count, 0);
    // From the last chat, the next one is the first.
    app.handle_action(Action::NextChat, NOW);
    app.handle_action(Action::NextChat, NOW);
    assert_eq!(app.state.chat_list_state.selected, Some(0));
    app.handle_action(Action::PrevChat, NOW);
    assert_eq!(app.state.chat_list_state.selected, Some(2));
    assert_eq!(app.state.scroll_offset, 0);
}

#[test]
fn a_submitted_message_goes_out_and_comes_back_as_an_event() {
    let mut app = started_app(2);
    app.handle_tick(NOW);
    let shown = app.state.messages.len();
    app.handle_action(Action::EnterEditing, NOW);
    assert_eq!(app.state.input_mode, InputMode::Editing);
    assert_eq!(app.state.active_panel, ActivePanel::MessageView);
    for c in "hé!".chars() {
        app.handle_action(Action::InsertChar(c), NOW);
    }
    assert_eq!(app.state.input_buffer, "hé!");
    assert_eq!(app.state.cursor_position, 4);
    let outcome = app.handle_action(Action::SubmitMessage, NOW);
    let sent = outcome.sent.unwrap().unwrap();
    assert_eq!(sent.chat_id, "mock-chat-0");
    assert_eq!(sent.content.as_text(), "hé!");
    assert!(sent.is_outgoing);
    assert_eq!(sent.status, MessageStatus::Sent);
    assert_eq!(app.state.input_buffer, "");
    assert_eq!(app.state.cursor_position, 0);
    // The message itself arrives with the next tick.
    assert_eq!(app.state.messages.len(), shown);
    app.handle_tick(NOW);
    assert_eq!(app.state.messages.len(), shown + 1);
    assert!(app.state.messages[shown] == sent);
    assert_eq!(app.state.chats[0].unread_count, 0);
    // Nothing to send: nothing is sent.
    assert!(app.handle_action(Action::SubmitMessage, NOW).sent.is_none());
}

#[test]
fn nothing_is_sent_without_a_provider_for_the_chat() {
    let mut app = new_app();
    app.state.chats.push(UnifiedChat {
        id: "wa-1".to_string(),
        platform: Platform::WhatsApp,
        name: "Alice".to_string(),
        display_name: None,
        last_message: None,
        unread_count: 0,
        is_group: false,
    });
    app.handle_action(Action::InsertChar('x'), NOW);
    let outcome = app.handle_action(Action::SubmitMessage, NOW);
    assert!(matches!(outcome.sent, Some(Err(_))));
}

#[test]
fn typing_and_deleting_characters() {
    let mut app = new_app();
    for c in "añb".chars() {
        app.handle_action(Action::InsertChar(c), NOW);
    }
    assert_eq!(app.state.input_buffer, "añb");
    assert_eq!(app.state.cursor_position, 4);
    app.handle_action(Action::DeleteChar, NOW);
    assert_eq!(app.state.input_buffer, "añ");
    assert_eq!(app.state.cursor_position, 3);
    app.handle_action(Action::DeleteChar, NOW);
    assert_eq!(app.state.input_buffer, "a");
    assert_eq!(app.state.cursor_position, 1);
    // Typing in the middle.
    app.state.cursor_position = 0;
    app.handle_action(Action::InsertChar('ß'), NOW);
    assert_eq!(app.state.input_buffer, "ßa");
    assert_eq!(app.state.cursor_position, 2);
    app.state.cursor_position = 0;
    app.handle_action(Action::DeleteChar, NOW);
    assert_eq!(app.state.input_buffer, "ßa");
    // A cursor inside a character leaves the line alone.
    app.state.cursor_position = 1;
    app.handle_action(Action::InsertChar('x'), NOW);
    app.handle_action(Action::DeleteChar, NOW);
    assert_eq!(app.state.input_buffer, "ßa");
    assert_eq!(app.state.take_input(), "ßa");
    assert_eq!(app.state.cursor_position, 0);
}

#[test]
fn renaming_gives_the_chat_a_name_of_the_users_own() {
    let mut app = started_app(2);
    app.handle_tick(NOW);
    app.handle_action(Action::InsertChar('z'), NOW);
    app.handle_action(Action::RenameChat, NOW);
    assert_eq!(app.state.input_mode, InputMode::Renaming);
    assert_eq!(app.state.input_buffer, "");
    for c in "Ali".chars() {
        app.handle_action(Action::InsertChar(c), NOW);
    }
    let outcome = app.handle_action(Action::ConfirmRename, NOW);
    assert_eq!(outcome.writes.len(), 1);
    assert_eq!(app.state.input_mode, InputMode::Normal);
    assert_eq!(app.state.input_buffer, "");
    assert_eq!(app.state.chats[0].display_name.as_deref(), Some("Ali"));
    assert_eq!(app.state.chats[0].name, "Alice Johnson");
    assert_eq!(app.state.chats[0].shown_name(), "Ali");
    let stored = app.db.get_all_chats();
    let row = stored.iter().find(|c| c.id == "mock-chat-0").unwrap();
    assert_eq!(row.display_name.as_deref(), Some("Ali"));
    // A refresh from the backend does not touch the name.
    let sink = app.router.sink();
    sink.send(ProviderEvent::ChatsUpdated(vec![UnifiedChat {
        name: "Alice J.".to_string(),
        display_name: None,
        ..app.state.chats[0].clone()
    }]));
    app.handle_tick(NOW);
    assert_eq!(app.state.chats[0].name, "Alice J.");
    assert_eq!(app.state.chats[0].display_name.as_deref(), Some("Ali"));
    let stored = app.db.get_all_chats();
    let row = stored.iter().find(|c| c.id == "mock-chat-0").unwrap();
    assert_eq!(row.display_name.as_deref(), Some("Ali"));
    assert_eq!(row.name, "Alice J.");
    // An empty name names nothing; cancelling neither.
    app.handle_action(Action::RenameChat, NOW);
    assert!(app.handle_action(Action::ConfirmRename, NOW).writes.is_empty());
    app.handle_action(Action::RenameChat, NOW);
    app.handle_action(Action::InsertChar('q'), NOW);
    app.handle_action(Action::CancelRename, NOW);
    assert_eq!(app.state.input_mode, InputMode::Normal);
    assert_eq!(app.state.input_buffer, "");
    assert_eq!(app.state.chats[0].display_name.as_deref(), Some("Ali"));
}

#[test]
fn renaming_needs_a_selected_chat() {
    let mut app = new_app();
    app.handle_action(Action::RenameChat, NOW);
    assert_eq!(app.state.input_mode, InputMode::Normal);
}

#[test]
fn settings_are_changed_and_saved() {
    let mut app = new_app();
    assert!(app.config.mock_provider.enabled);
    app.handle_action(Action::OpenSettings, NOW);
    assert_eq!(app.state.input_mode, InputMode::Settings);
    app.handle_action(Action::SettingsToggle, NOW);
    app.handle_action(Action::SettingsNext, NOW);
    app.handle_action(Action::SettingsNext, NOW);
    app.handle_action(Action::SettingsNext, NOW);
    app.handle_action(Action::SettingsToggle, NOW);
    {
        let dialog = app.state.settings_state.as_ref().unwrap();
        assert_eq!(dialog.selected, 2);
        assert!(dialog.dirty);
        assert!(matches!(dialog.items[0].value, SettingsValue::Bool(false)));
        assert!(matches!(dialog.items[2].value, SettingsValue::Choice(_, 3)));
    }
    // Nothing is written before the dialog is saved.
    assert!(app.config.mock_provider.enabled);
    let outcome = app.handle_action(Action::SettingsSave, NOW);
    assert!(outcome.config_changed);
    assert!(!app.config.mock_provider.enabled);
    assert!(app.config.whatsapp.enabled);
    assert_eq!(app.config.general.log_level, "warn");
    assert!(app.state.settings_state.is_none());
    assert_eq!(app.state.input_mode, InputMode::Normal);
    // Closing drops what was changed.
    app.handle_action(Action::OpenSettings, NOW);
    app.handle_action(Action::SettingsNext, NOW);
    app.handle_action(Action::SettingsPrev, NOW);
    app.handle_action(Action::SettingsPrev, NOW);
    app.handle_action(Action::SettingsToggle, NOW);
    app.handle_action(Action::SettingsClose, NOW);
    assert!(!app.config.mock_provider.enabled);
    assert!(!app.handle_action(Action::SettingsSave, NOW).config_changed);
}

#[test]
fn small_actions() {
    let mut app = new_app();
    app.handle_action(Action::SwitchPanel, NOW);
    assert_eq!(app.state.active_panel, ActivePanel::MessageView);
    app.handle_action(Action::SwitchPanel, NOW);
    assert_eq!(app.state.active_panel, ActivePanel::ChatList);
    app.handle_action(Action::ScrollUp, NOW);
    app.handle_action(Action::ScrollUp, NOW);
    assert_eq!(app.state.scroll_offset, 6);
    app.handle_action(Action::ScrollDown, NOW);
    assert_eq!(app.state.scroll_offset, 3);
    app.handle_action(Action::ScrollDown, NOW);
    app.handle_action(Action::ScrollDown, NOW);
    assert_eq!(app.state.scroll_offset, 0);
    app.state.scroll_offset = u16::MAX - 1;
    app.handle_action(Action::ScrollUp, NOW);
    assert_eq!(app.state.scroll_offset, u16::MAX);
    app.handle_action(Action::EnterEditing, NOW);
    app.handle_action(Action::ExitEditing, NOW);
    assert_eq!(app.state.input_mode, InputMode::Normal);
    app.handle_action(Action::NextChat, NOW);
    assert_eq!(app.state.chat_list_state.selected, Some(0));
    app.handle_action(Action::Nothing, NOW);
    assert!(!app.state.should_quit);
    app.handle_action(Action::Quit, NOW);
    assert!(app.state.should_quit);
}

#[test]
fn stopping_stops_every_provider() {
    let mut app = started_app(1);
    app.handle_tick(NOW);
    let stopped = app.stop();
    assert_eq!(stopped.len(), 1);
    app.handle_action(Action::InsertChar('x'), NOW);
    let outcome = app.handle_action(Action::SubmitMessage, NOW);
    assert!(matches!(outcome.sent, Some(Err(_))));
}
