//! The input line: the tag of the mode, and where the cursor is drawn.

use vstd::prelude::*;
use vstd::string::StrSliceExecFns;
use vstd::utf8::encode_utf8_decode_utf8;

use crate::tui::app_state::{chars_before, on_char_boundary, InputMode};

verus! {

/// The tag that the input line shows for a mode of the keyboard.
pub open spec fn mode_tag_spec(mode: InputMode) -> Seq<char> {
    match mode {
        InputMode::Normal => "NORMAL"@,
        InputMode::Editing => "INSERT"@,
        InputMode::Settings => "SETTINGS"@,
        InputMode::Renaming => "RENAME"@,
    }
}

/// The tag that the input line shows for a mode of the keyboard.
pub fn mode_tag(mode: InputMode) -> (tag: &'static str)
    ensures
        tag@ == mode_tag_spec(mode),
{
    match mode {
        InputMode::Normal => "NORMAL",
        InputMode::Editing => "INSERT",
        InputMode::Settings => "SETTINGS",
        InputMode::Renaming => "RENAME",
    }
}

/// Whether the input line shows a cursor in a mode: it does while a message
/// or a name is typed.
pub open spec fn shows_cursor(mode: InputMode) -> bool {
    mode == InputMode::Editing || mode == InputMode::Renaming
}

/// The column of the cursor: behind the left border, the tag in its
/// brackets, a blank, and the characters of the input before the cursor. A
/// column beyond the last that can be named is the last.
pub open spec fn cursor_column_spec(left: u16, mode: InputMode, input: Seq<char>, cursor: int) -> u16 {
    let column = left + 1 + mode_tag_spec(mode).len() + 3 + chars_before(input, cursor);
    if column > u16::MAX {
        u16::MAX
    } else {
        column as u16
    }
}

/// The column of the cursor of the input line. The cursor is a byte position
/// and has to stand where a character starts, or at the end.
pub fn cursor_column(left: u16, mode: InputMode, input: &str, cursor_position: usize) -> (column: u16)
    requires
        on_char_boundary(input@, cursor_position as int),
    ensures
        column == cursor_column_spec(left, mode, input@, cursor_position as int),
{
    let (head, _tail) = input.split_at(cursor_position);
    proof {
        encode_utf8_decode_utf8(head@);
    }
    let before = head.unicode_len();
    let tag = mode_tag(mode).unicode_len();
    proof {
        reveal_strlit("NORMAL");
        reveal_strlit("INSERT");
        reveal_strlit("SETTINGS");
        reveal_strlit("RENAME");
    }
    let room: usize = (u16::MAX - left) as usize;
    if before > room || tag + 4 > room - before {
        u16::MAX
    } else {
        left + ((tag + 4 + before) as u16)
    }
}

} // verus!
