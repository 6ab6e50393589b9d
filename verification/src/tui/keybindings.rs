//! Which action a key stands for, in each mode of the keyboard.

use vstd::prelude::*;

use crate::tui::app_state::InputMode;

verus! {

/// What the user asked for with a key.
#[derive(Debug, Clone, Copy, PartialEq, Eq, Structural)]
pub enum Action {
    Quit,
    SwitchPanel,
    NextChat,
    PrevChat,
    EnterEditing,
    ExitEditing,
    SubmitMessage,
    DeleteChar,
    InsertChar(char),
    ScrollUp,
    ScrollDown,
    OpenSettings,
    SettingsNext,
    SettingsPrev,
    SettingsToggle,
    SettingsSave,
    SettingsClose,
    RenameChat,
    ConfirmRename,
    CancelRename,
    /// The key stands for no action.
    Nothing,
}

/// The keys that the client tells apart. Every other key is `Other`.
#[derive(Debug, Clone, Copy, PartialEq, Eq, Structural)]
pub enum Key {
    Char(char),
    Enter,
    Esc,
    Tab,
    Backspace,
    Up,
    Down,
    PageUp,
    PageDown,
    Other,
}

/// A key as it was pressed: the key, and whether Control was held.
#[derive(Debug, Clone, Copy, PartialEq, Eq, Structural)]
pub struct KeyPress {
    pub code: Key,
    pub control: bool,
}

/// The action of a key while chats are browsed.
pub open spec fn normal_action(key: KeyPress) -> Action {
    match key.code {
        Key::Char(c) => if c == 'q' {
            Action::Quit
        } else if c == 'c' && key.control {
            Action::Quit
        } else if c == 'j' {
            Action::NextChat
        } else if c == 'k' {
            Action::PrevChat
        } else if c == 'i' {
            Action::EnterEditing
        } else if c == 's' {
            Action::OpenSettings
        } else if c == 'r' {
            Action::RenameChat
        } else {
            Action::Nothing
        },
        Key::Tab => Action::SwitchPanel,
        Key::Down => Action::NextChat,
        Key::Up => Action::PrevChat,
        Key::Enter => Action::EnterEditing,
        Key::PageUp => Action::ScrollUp,
        Key::PageDown => Action::ScrollDown,
        _ => Action::Nothing,
    }
}

/// The action of a key while a message is typed.
pub open spec fn editing_action(key: KeyPress) -> Action {
    match key.code {
        Key::Esc => Action::ExitEditing,
        Key::Enter => Action::SubmitMessage,
        Key::Backspace => Action::DeleteChar,
        Key::Char(c) => Action::InsertChar(c),
        _ => Action::Nothing,
    }
}

/// The action of a key while the settings dialog is open.
pub open spec fn settings_action(key: KeyPress) -> Action {
    match key.code {
        Key::Char(c) => if c == 'j' {
            Action::SettingsNext
        } else if c == 'k' {
            Action::SettingsPrev
        } else if c == ' ' {
            Action::SettingsToggle
        } else if c == 's' && key.control {
            Action::SettingsSave
        } else if c == 'q' {
            Action::SettingsClose
        } else {
            Action::Nothing
        },
        Key::Down => Action::SettingsNext,
        Key::Up => Action::SettingsPrev,
        Key::Enter => Action::SettingsToggle,
        Key::Esc => Action::SettingsClose,
        _ => Action::Nothing,
    }
}

/// The action of a key while a chat is renamed.
pub open spec fn renaming_action(key: KeyPress) -> Action {
    match key.code {
        Key::Esc => Action::CancelRename,
        Key::Enter => Action::ConfirmRename,
        Key::Backspace => Action::DeleteChar,
        Key::Char(c) => Action::InsertChar(c),
        _ => Action::Nothing,
    }
}

/// The action of a key in a mode of the keyboard.
pub open spec fn action_for(key: KeyPress, mode: InputMode) -> Action {
    match mode {
        InputMode::Normal => normal_action(key),
        InputMode::Editing => editing_action(key),
        InputMode::Settings => settings_action(key),
        InputMode::Renaming => renaming_action(key),
    }
}

pub fn map_key(key: KeyPress, mode: InputMode) -> (action: Action)
    ensures
        action == action_for(key, mode),
{
    match mode {
        InputMode::Normal => map_normal_mode(key),
        InputMode::Editing => map_editing_mode(key),
        InputMode::Settings => map_settings_mode(key),
        InputMode::Renaming => map_renaming_mode(key),
    }
}

fn map_normal_mode(key: KeyPress) -> (action: Action)
    ensures
        action == normal_action(key),
{
    match key.code {
        Key::Char('q') => Action::Quit,
        Key::Char('c') if key.control => Action::Quit,
        Key::Tab => Action::SwitchPanel,
        Key::Char('j') | Key::Down => Action::NextChat,
        Key::Char('k') | Key::Up => Action::PrevChat,
        Key::Char('i') | Key::Enter => Action::EnterEditing,
        Key::Char('s') => Action::OpenSettings,
        Key::Char('r') => Action::RenameChat,
        Key::PageUp => Action::ScrollUp,
        Key::PageDown => Action::ScrollDown,
        _ => Action::Nothing,
    }
}

fn map_editing_mode(key: KeyPress) -> (action: Action)
    ensures
        action == editing_action(key),
{
    match key.code {
        Key::Esc => Action::ExitEditing,
        Key::Enter => Action::SubmitMessage,
        Key::Backspace => Action::DeleteChar,
        Key::Char(c) => Action::InsertChar(c),
        _ => Action::Nothing,
    }
}

fn map_settings_mode(key: KeyPress) -> (action: Action)
    ensures
        action == settings_action(key),
{
    match key.code {
        Key::Char('j') | Key::Down => Action::SettingsNext,
        Key::Char('k') | Key::Up => Action::SettingsPrev,
        Key::Enter | Key::Char(' ') => Action::SettingsToggle,
        Key::Char('s') if key.control => Action::SettingsSave,
        Key::Esc | Key::Char('q') => Action::SettingsClose,
        _ => Action::Nothing,
    }
}

fn map_renaming_mode(key: KeyPress) -> (action: Action)
    ensures
        action == renaming_action(key),
{
    match key.code {
        Key::Esc => Action::CancelRename,
        Key::Enter => Action::ConfirmRename,
        Key::Backspace => Action::DeleteChar,
        Key::Char(c) => Action::InsertChar(c),
        _ => Action::Nothing,
    }
}

} // verus!
