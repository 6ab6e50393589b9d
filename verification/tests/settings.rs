use zero_drift_chat::config::settings::{
    data_dir_under, default_chat_count, default_chat_list_width, default_log_level,
    default_message_interval, default_render_rate, default_tick_rate, default_true, AppConfig,
    GeneralConfig, MockProviderConfig, TuiConfig, WhatsAppConfig,
};
use zero_drift_chat::tui::app_state::{
    AppState, InputMode, ListSelection, SettingsItem, SettingsKey, SettingsState, SettingsValue,
};

#[test]
fn defaults_of_the_configuration() {
    assert_eq!(default_log_level(), "info");
    assert_eq!(default_tick_rate(), 250);
    assert_eq!(default_render_rate(), 33);
    assert_eq!(default_chat_list_width(), 30);
    assert!(default_true());
    assert_eq!(default_chat_count(), 5);
    assert_eq!(default_message_interval(), 3);
    let config = AppConfig::default();
    assert_eq!(config.general.log_level, "info");
    assert!(config.general.data_dir.ends_with(".zero-drift-chat"));
    assert_eq!(config.tui, TuiConfig { tick_rate_ms: 250, render_rate_ms: 33, chat_list_width_percent: 30 });
    assert_eq!(
        config.mock_provider,
        MockProviderConfig { enabled: true, chat_count: 5, message_interval_secs: 3 }
    );
    assert!(config.whatsapp.enabled);
    assert_eq!(config.whatsapp.phone_number, None);
    assert!(WhatsAppConfig::default().enabled);
    assert_eq!(GeneralConfig::default().log_level, "info");
    assert_eq!(data_dir_under(None), ".zero-drift-chat");
    assert!(data_dir_under(Some("/home/alice".to_string())).starts_with("/home/alice"));
}

fn config_with_level(level: &str) -> AppConfig {
    let mut config = AppConfig::default();
    config.general.log_level = level.to_string();
    config
}

fn choice_index(item: &SettingsItem) -> usize {
    match &item.value {
        SettingsValue::Choice(_, index) => *index,
        other => panic!("not a choice: {:?}", other),
    }
}

#[test]
fn the_dialog_opens_on_the_configured_values() {
    let mut config = config_with_level("error");
    config.mock_provider.enabled = false;
    let dialog = SettingsState::from_config(&config);
    assert_eq!(dialog.items.len(), 3);
    assert_eq!(dialog.selected, 0);
    assert!(!dialog.dirty);
    assert_eq!(dialog.items[0].key, SettingsKey::MockEnabled);
    assert_eq!(dialog.items[0].label, "Mock Provider");
    assert!(matches!(dialog.items[0].value, SettingsValue::Bool(false)));
    assert_eq!(dialog.items[1].key, SettingsKey::WhatsAppEnabled);
    assert_eq!(dialog.items[1].label, "WhatsApp");
    assert!(matches!(dialog.items[1].value, SettingsValue::Bool(true)));
    assert_eq!(dialog.items[2].key, SettingsKey::LogLevel);
    assert_eq!(dialog.items[2].label, "Log Level");
    match &dialog.items[2].value {
        SettingsValue::Choice(choices, index) => {
            assert_eq!(choices, &vec!["trace", "debug", "info", "warn", "error"]);
            assert_eq!(*index, 4);
        }
        other => panic!("not a choice: {:?}", other),
    }
    assert_eq!(choice_index(&SettingsState::from_config(&config_with_level("trace")).items[2]), 0);
    // A level that is not offered opens on `info`.
    assert_eq!(choice_index(&SettingsState::from_config(&config_with_level("loud")).items[2]), 2);
}

#[test]
fn the_selection_stays_within_the_lines() {
    let mut dialog = SettingsState::from_config(&AppConfig::default());
    dialog.select_prev();
    assert_eq!(dialog.selected, 0);
    dialog.select_next();
    dialog.select_next();
    assert_eq!(dialog.selected, 2);
    dialog.select_next();
    assert_eq!(dialog.selected, 2);
    dialog.select_prev();
    assert_eq!(dialog.selected, 1);
    let mut empty = SettingsState { items: Vec::new(), selected: 0, dirty: false };
    empty.select_next();
    assert_eq!(empty.selected, 0);
    empty.toggle_selected();
    assert!(!empty.dirty);
}

#[test]
fn toggling_flips_switches_and_cycles_choices() {
    let mut dialog = SettingsState::from_config(&AppConfig::default());
    dialog.toggle_selected();
    assert!(dialog.dirty);
    assert!(matches!(dialog.items[0].value, SettingsValue::Bool(false)));
    dialog.toggle_selected();
    assert!(matches!(dialog.items[0].value, SettingsValue::Bool(true)));
    dialog.selected = 2;
    assert_eq!(choice_index(&dialog.items[2]), 2);
    dialog.toggle_selected();
    dialog.toggle_selected();
    assert_eq!(choice_index(&dialog.items[2]), 4);
    dialog.toggle_selected();
    assert_eq!(choice_index(&dialog.items[2]), 0);
    dialog.items[2].value = SettingsValue::Choice(Vec::new(), 0);
    dialog.toggle_selected();
    assert_eq!(choice_index(&dialog.items[2]), 0);
}

#[test]
fn applying_writes_each_line_into_the_configuration() {
    let mut config = AppConfig::default();
    let mut dialog = SettingsState::from_config(&config);
    dialog.items[0].value = SettingsValue::Bool(false);
    dialog.items[1].value = SettingsValue::Bool(false);
    dialog.items[2].value = SettingsValue::Choice(vec!["a".to_string(), "b".to_string()], 1);
    dialog.apply_to_config(&mut config);
    assert!(!config.mock_provider.enabled);
    assert!(!config.whatsapp.enabled);
    assert_eq!(config.general.log_level, "b");
    assert_eq!(config.mock_provider.chat_count, 5);
    // A value that does not fit its key, or a choice out of range, changes nothing.
    dialog.items[0].value = SettingsValue::Choice(vec!["x".to_string()], 0);
    dialog.items[2].value = SettingsValue::Choice(vec!["a".to_string()], 5);
    dialog.apply_to_config(&mut config);
    assert!(!config.mock_provider.enabled);
    assert_eq!(config.general.log_level, "b");
}

#[test]
fn a_fresh_state() {
    let state = AppState::new();
    assert!(state.chats.is_empty());
    assert!(state.messages.is_empty());
    assert_eq!(state.chat_list_state, ListSelection { selected: Some(0), offset: 0 });
    assert_eq!(state.input_mode, InputMode::Normal);
    assert_eq!(state.input_buffer, "");
    assert_eq!(state.cursor_position, 0);
    assert_eq!(state.scroll_offset, 0);
    assert!(!state.should_quit);
    assert_eq!(state.qr_code, None);
    assert!(!state.whatsapp_connected);
    assert!(!state.mock_enabled);
    assert!(state.settings_state.is_none());
    assert_eq!(state.selected_chat_id(), None);
    assert!(!state.shows("anything"));
}

#[test]
fn deselecting_shows_the_list_from_its_top() {
    let mut list = ListSelection { selected: Some(4), offset: 2 };
    list.select(Some(5));
    assert_eq!(list, ListSelection { selected: Some(5), offset: 2 });
    list.select(None);
    assert_eq!(list, ListSelection { selected: None, offset: 0 });
    assert_eq!(list.selected(), None);
}
