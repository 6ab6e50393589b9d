//! The hints of the status bar.

use vstd::prelude::*;

use crate::tui::app_state::InputMode;

verus! {

/// The keys that the status bar reminds of, in each mode of the keyboard.
pub open spec fn hints_spec(mode: InputMode) -> Seq<char> {
    match mode {
        InputMode::Normal => "q:Quit | Tab:Switch | j/k:Navigate | i:Type | r:Rename | s:Settings"@,
        InputMode::Editing => "Esc:Normal | Enter:Send | Type your message"@,
        InputMode::Settings => "j/k:Navigate | Enter/Space:Toggle | Ctrl+s:Save | Esc:Cancel"@,
        InputMode::Renaming => "Enter:Confirm | Esc:Cancel | Type new name"@,
    }
}

/// The keys that the status bar reminds of.
pub fn status_hints(mode: InputMode) -> (hints: &'static str)
    ensures
        hints@ == hints_spec(mode),
{
    match mode {
        InputMode::Normal => "q:Quit | Tab:Switch | j/k:Navigate | i:Type | r:Rename | s:Settings",
        InputMode::Editing => "Esc:Normal | Enter:Send | Type your message",
        InputMode::Settings => "j/k:Navigate | Enter/Space:Toggle | Ctrl+s:Save | Esc:Cancel",
        InputMode::Renaming => "Enter:Confirm | Esc:Cancel | Type new name",
    }
}

} // verus!
