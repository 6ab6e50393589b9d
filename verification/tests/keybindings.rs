use zero_drift_chat::tui::app_state::InputMode;
use zero_drift_chat::tui::keybindings::{map_key, Action, Key, KeyPress};

fn plain(code: Key) -> KeyPress {
    KeyPress { code, control: false }
}

fn ctrl(code: Key) -> KeyPress {
    KeyPress { code, control: true }
}

#[test]
fn keys_while_browsing() {
    let mode = InputMode::Normal;
    assert_eq!(map_key(plain(Key::Char('q')), mode), Action::Quit);
    assert_eq!(map_key(ctrl(Key::Char('c')), mode), Action::Quit);
    assert_eq!(map_key(plain(Key::Char('c')), mode), Action::Nothing);
    assert_eq!(map_key(plain(Key::Tab), mode), Action::SwitchPanel);
    assert_eq!(map_key(plain(Key::Char('j')), mode), Action::NextChat);
    assert_eq!(map_key(plain(Key::Down), mode), Action::NextChat);
    assert_eq!(map_key(plain(Key::Char('k')), mode), Action::PrevChat);
    assert_eq!(map_key(plain(Key::Up), mode), Action::PrevChat);
    assert_eq!(map_key(plain(Key::Char('i')), mode), Action::EnterEditing);
    assert_eq!(map_key(plain(Key::Enter), mode), Action::EnterEditing);
    assert_eq!(map_key(plain(Key::Char('s')), mode), Action::OpenSettings);
    assert_eq!(map_key(plain(Key::Char('r')), mode), Action::RenameChat);
    assert_eq!(map_key(plain(Key::PageUp), mode), Action::ScrollUp);
    assert_eq!(map_key(plain(Key::PageDown), mode), Action::ScrollDown);
    assert_eq!(map_key(plain(Key::Esc), mode), Action::Nothing);
    assert_eq!(map_key(plain(Key::Other), mode), Action::Nothing);
    assert_eq!(map_key(ctrl(Key::Char('q')), mode), Action::Quit);
}

#[test]
fn keys_while_typing() {
    for (mode, leave, enter) in [
        (InputMode::Editing, Action::ExitEditing, Action::SubmitMessage),
        (InputMode::Renaming, Action::CancelRename, Action::ConfirmRename),
    ] {
        assert_eq!(map_key(plain(Key::Esc), mode), leave);
        assert_eq!(map_key(plain(Key::Enter), mode), enter);
        assert_eq!(map_key(plain(Key::Backspace), mode), Action::DeleteChar);
        assert_eq!(map_key(plain(Key::Char('q')), mode), Action::InsertChar('q'));
        assert_eq!(map_key(ctrl(Key::Char('c')), mode), Action::InsertChar('c'));
        assert_eq!(map_key(plain(Key::Tab), mode), Action::Nothing);
    }
}

#[test]
fn keys_in_the_settings_dialog() {
    let mode = InputMode::Settings;
    assert_eq!(map_key(plain(Key::Char('j')), mode), Action::SettingsNext);
    assert_eq!(map_key(plain(Key::Down), mode), Action::SettingsNext);
    assert_eq!(map_key(plain(Key::Char('k')), mode), Action::SettingsPrev);
    assert_eq!(map_key(plain(Key::Up), mode), Action::SettingsPrev);
    assert_eq!(map_key(plain(Key::Enter), mode), Action::SettingsToggle);
    assert_eq!(map_key(plain(Key::Char(' ')), mode), Action::SettingsToggle);
    assert_eq!(map_key(ctrl(Key::Char('s')), mode), Action::SettingsSave);
    assert_eq!(map_key(plain(Key::Char('s')), mode), Action::Nothing);
    assert_eq!(map_key(plain(Key::Esc), mode), Action::SettingsClose);
    assert_eq!(map_key(plain(Key::Char('q')), mode), Action::SettingsClose);
    assert_eq!(map_key(plain(Key::Backspace), mode), Action::Nothing);
}
