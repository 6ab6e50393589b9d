use zero_drift_chat::config::settings::AppConfig;
use zero_drift_chat::messaging::types::{
    MessageContent, MessageStatus, Platform, Timestamp, UnifiedChat, UnifiedMessage,
};
use zero_drift_chat::tui::app_state::{AppState, InputMode, SettingsState, SettingsValue};
use zero_drift_chat::tui::render::{centered_rect, chat_title, Rect};
use zero_drift_chat::tui::widgets::chat_list::{chat_line, chat_list_lines};
use zero_drift_chat::tui::widgets::input_bar::{cursor_column, mode_tag};
use zero_drift_chat::tui::widgets::message_view::{effective_scroll, message_lines};
use zero_drift_chat::tui::widgets::qr_overlay::{pairing_picture, popup_size, qr_rows, HalfBlock};
use zero_drift_chat::tui::widgets::settings_overlay::{pad_right, settings_lines, settings_popup};
use zero_drift_chat::tui::widgets::status_bar::status_hints;

fn chat(name: &str, unread: u32) -> UnifiedChat {
    UnifiedChat {
        id: "c".to_string(),
        platform: Platform::WhatsApp,
        name: name.to_string(),
        display_name: None,
        last_message: None,
        unread_count: unread,
        is_group: false,
    }
}

#[test]
fn a_rectangle_in_the_middle() {
    let area = Rect { x: 10, y: 5, width: 100, height: 40 };
    assert_eq!(centered_rect(50, 5, area), Rect { x: 35, y: 22, width: 50, height: 5 });
    assert_eq!(centered_rect(200, 80, area), area);
    assert_eq!(centered_rect(99, 39, area), Rect { x: 10, y: 5, width: 99, height: 39 });
    let far = Rect { x: u16::MAX - 2, y: 0, width: 20, height: 10 };
    assert_eq!(centered_rect(4, 4, far), Rect { x: u16::MAX, y: 3, width: 4, height: 4 });
}

#[test]
fn the_title_of_the_messages() {
    let mut state = AppState::new();
    assert_eq!(chat_title(&state), "No chat selected");
    state.chats.push(UnifiedChat { display_name: Some("Mine".to_string()), ..chat("Alice", 0) });
    assert_eq!(chat_title(&state), "Alice");
    state.chat_list_state.select(None);
    assert_eq!(chat_title(&state), "No chat selected");
}

#[test]
fn lines_of_the_list_of_chats() {
    let line = chat_line(&chat("Alice", 0));
    assert_eq!(line.tag, "[WA]");
    assert_eq!(line.name, "Alice");
    assert_eq!(line.unread, "");
    let unread = chat_line(&UnifiedChat { platform: Platform::Mock, display_name: Some("Bestie".to_string()), ..chat("Alice", 12) });
    assert_eq!(unread.tag, "[Mock]");
    assert_eq!(unread.name, "Bestie");
    assert_eq!(unread.unread, " (12)");
    assert_eq!(chat_line(&chat("", 0)).name, "c");
    let lines = chat_list_lines(&vec![chat("A", 1), chat("B", 0)]);
    assert_eq!(lines.len(), 2);
    assert_eq!(lines[0].unread, " (1)");
    assert_eq!(lines[1].name, "B");
}

#[test]
fn the_input_line() {
    assert_eq!(mode_tag(InputMode::Normal), "NORMAL");
    assert_eq!(mode_tag(InputMode::Editing), "INSERT");
    assert_eq!(mode_tag(InputMode::Settings), "SETTINGS");
    assert_eq!(mode_tag(InputMode::Renaming), "RENAME");
    // Left border, "[INSERT] ", then the characters before the cursor.
    assert_eq!(cursor_column(0, InputMode::Editing, "", 0), 10);
    assert_eq!(cursor_column(3, InputMode::Editing, "añb", 4), 16);
    assert_eq!(cursor_column(3, InputMode::Editing, "añb", 1), 14);
    assert_eq!(cursor_column(0, InputMode::Renaming, "ab", 2), 12);
    assert_eq!(cursor_column(u16::MAX - 5, InputMode::Editing, "abc", 3), u16::MAX);
}

#[test]
fn hints_of_the_status_bar() {
    assert_eq!(status_hints(InputMode::Normal), "q:Quit | Tab:Switch | j/k:Navigate | i:Type | r:Rename | s:Settings");
    assert_eq!(status_hints(InputMode::Editing), "Esc:Normal | Enter:Send | Type your message");
    assert_eq!(status_hints(InputMode::Settings), "j/k:Navigate | Enter/Space:Toggle | Ctrl+s:Save | Esc:Cancel");
    assert_eq!(status_hints(InputMode::Renaming), "Enter:Confirm | Esc:Cancel | Type new name");
}

#[test]
fn lines_of_a_message() {
    let msg = UnifiedMessage {
        id: "m".to_string(),
        chat_id: "c".to_string(),
        platform: Platform::Mock,
        sender: "Alice".to_string(),
        content: MessageContent::Image { url: "u".to_string(), caption: None },
        timestamp: Timestamp { secs: 1_431_648_000 + 13 * 3600 + 7 * 60 + 59, nanos: 0 },
        status: MessageStatus::Read,
        is_outgoing: false,
    };
    let lines = message_lines(&msg);
    assert_eq!(lines.sender, "Alice ");
    assert_eq!(lines.time.as_deref(), Some("13:07"));
    assert_eq!(lines.text, "[Image]");
    assert!(!lines.is_outgoing);
    let early = UnifiedMessage { timestamp: Timestamp { secs: -60, nanos: 0 }, ..msg.clone() };
    assert_eq!(message_lines(&early).time.as_deref(), Some("23:59"));
    let never = UnifiedMessage { timestamp: Timestamp { secs: i64::MIN, nanos: 0 }, ..msg };
    assert_eq!(message_lines(&never).time, None);
}

#[test]
fn how_far_the_messages_are_scrolled() {
    // Ten messages are thirty lines; a panel of twelve rows shows ten of them.
    assert_eq!(effective_scroll(10, 12, 0), 20);
    assert_eq!(effective_scroll(10, 12, 6), 14);
    assert_eq!(effective_scroll(10, 12, 25), 0);
    assert_eq!(effective_scroll(3, 12, 0), 0);
    assert_eq!(effective_scroll(3, 1, 0), 9);
    assert_eq!(effective_scroll(0, 0, 0), 0);
    assert_eq!(effective_scroll(1_000_000, 10, 5), u16::MAX - 5);
    assert_eq!(effective_scroll(usize::MAX, 10, 0), u16::MAX);
}

#[test]
fn the_picture_of_a_code() {
    let dark = vec![
        true, false, true,
        true, true, false,
        false, false, true,
    ];
    let rows = qr_rows(&dark, 3).unwrap();
    assert_eq!(rows, vec![
        vec![HalfBlock::Full, HalfBlock::Lower, HalfBlock::Upper],
        vec![HalfBlock::Empty, HalfBlock::Empty, HalfBlock::Upper],
    ]);
    assert!(qr_rows(&dark, 2).is_none());
    assert!(qr_rows(&dark, 0).is_none());
    assert!(qr_rows(&dark, 9).is_none());
    assert_eq!(qr_rows(&Vec::new(), 0), Some(Vec::new()));
    assert_eq!(qr_rows(&vec![true], 1), Some(vec![vec![HalfBlock::Upper]]));
}

#[test]
fn the_picture_of_a_pairing_code() {
    let rows = pairing_picture("2@abcdef").unwrap();
    // The smallest code has twenty-one modules per side.
    assert_eq!(rows.len(), 11);
    assert!(rows.iter().all(|r| r.len() == 21));
    // The corner of a finder pattern: dark along the top and down the left.
    assert_eq!(rows[0][0], HalfBlock::Full);
    assert_eq!(rows[0][1], HalfBlock::Upper);
    assert_eq!(rows[0][6], HalfBlock::Full);
    assert_eq!(rows[0][7], HalfBlock::Empty);
    assert!(rows != pairing_picture("2@abcdeg").unwrap());
    let too_long = "x".repeat(8000);
    assert!(pairing_picture(&too_long).is_none());
    assert_eq!(popup_size(21, 11), (27, 19));
    assert_eq!(popup_size(usize::MAX, 3), (u16::MAX, 11));
}

#[test]
fn lines_of_the_settings_dialog() {
    let mut dialog = SettingsState::from_config(&AppConfig::default());
    dialog.selected = 2;
    let lines = settings_lines(&dialog);
    assert_eq!(lines.len(), 3);
    assert_eq!(lines[0].prefix, "    ");
    assert_eq!(lines[0].label, "Mock Provider           ");
    assert_eq!(lines[0].label.len(), 24);
    assert_eq!(lines[0].value, "[x] On ");
    assert!(!lines[0].selected);
    assert_eq!(lines[2].prefix, "  > ");
    assert_eq!(lines[2].value, "< info >");
    assert!(lines[2].selected);
    dialog.items[1].value = SettingsValue::Bool(false);
    dialog.items[2].value = SettingsValue::Choice(vec!["a".to_string()], 3);
    let lines = settings_lines(&dialog);
    assert_eq!(lines[1].value, "[ ] Off");
    assert_eq!(lines[2].value, "<  >");
    assert_eq!(pad_right("ab", 4), "ab  ");
    assert_eq!(pad_right("abcdef", 4), "abcdef");
    assert_eq!(pad_right("añ", 3), "añ ");
    let screen = Rect { x: 0, y: 0, width: 80, height: 24 };
    assert_eq!(settings_popup(3, screen), Rect { x: 17, y: 6, width: 46, height: 11 });
    let small = Rect { x: 0, y: 0, width: 30, height: 8 };
    assert_eq!(settings_popup(3, small), small);
}
