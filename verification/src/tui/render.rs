//! What the screen shows, computed from the state. Drawing it is left to the
//! caller.

use vstd::prelude::*;

use crate::tui::app_state::{AppState, AppStateView};

verus! {

/// A rectangle of the screen, in cells.
#[derive(Debug, Clone, Copy, PartialEq, Eq, Structural)]
pub struct Rect {
    pub x: u16,
    pub y: u16,
    pub width: u16,
    pub height: u16,
}

/// The smaller of two numbers.
pub open spec fn min_spec(a: int, b: int) -> int {
    if a < b {
        a
    } else {
        b
    }
}

/// A coordinate moved right or down by an offset, held at the last cell
/// that a coordinate can name.
pub open spec fn moved(origin: u16, offset: int) -> u16 {
    if origin + offset > u16::MAX {
        u16::MAX
    } else {
        (origin + offset) as u16
    }
}

/// A rectangle of the given size in the middle of an area, cut down to the
/// area where it is larger.
pub open spec fn centered(width: u16, height: u16, area: Rect) -> Rect {
    let w = min_spec(width as int, area.width as int);
    let h = min_spec(height as int, area.height as int);
    Rect {
        x: moved(area.x, (area.width - w) / 2),
        y: moved(area.y, (area.height - h) / 2),
        width: w as u16,
        height: h as u16,
    }
}

fn move_by(origin: u16, offset: u16) -> (at: u16)
    ensures
        at == moved(origin, offset as int),
{
    if origin > u16::MAX - offset {
        u16::MAX
    } else {
        origin + offset
    }
}

/// A rectangle of the given size in the middle of an area.
pub fn centered_rect(width: u16, height: u16, area: Rect) -> (rect: Rect)
    ensures
        rect == centered(width, height, area),
{
    let w = if width < area.width {
        width
    } else {
        area.width
    };
    let h = if height < area.height {
        height
    } else {
        area.height
    };
    Rect {
        x: move_by(area.x, (area.width - w) / 2),
        y: move_by(area.y, (area.height - h) / 2),
        width: w,
        height: h,
    }
}

/// The title of the panel of messages: the name of the chat on screen as
/// the backend gave it, or a note that none is selected.
pub open spec fn message_title(s: AppStateView) -> Seq<char> {
    match s.chat_list_state.selected {
        Some(i) => if i < s.chats.len() {
            s.chats[i as int].name
        } else {
            "No chat selected"@
        },
        None => "No chat selected"@,
    }
}

/// The title of the panel of messages.
pub fn chat_title(state: &AppState) -> (title: &str)
    ensures
        title@ == message_title(state@),
{
    match state.chat_list_state.selected() {
        Some(i) => {
            if i < state.chats.len() {
                state.chats[i].name.as_str()
            } else {
                "No chat selected"
            }
        },
        None => "No chat selected",
    }
}

} // verus!
