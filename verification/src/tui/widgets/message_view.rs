//! The lines of the panel of messages, and how far they are scrolled.

use vstd::prelude::*;
use vstd::string::StringExecFns;

use crate::messaging::types::{MessageView, Timestamp, UnifiedMessage};
use crate::text::{digit_char, joined};

verus! {

/// A number below a hundred, written with two digits.
pub open spec fn two_digits(n: int) -> Seq<char> {
    seq![digit_char(n / 10), digit_char(n % 10)]
}

/// The time of day of a timestamp in UTC, as hours and minutes.
pub open spec fn clock_text(secs: i64) -> Seq<char> {
    two_digits((secs % 86400) / 3600) + ":"@ + two_digits(((secs % 86400) % 3600) / 60)
}

/// The time of day that chrono's `format("%H:%M")` writes for the UTC date
/// and time that `DateTime::from_timestamp` makes of the timestamp: the hour
/// and the minute of the day, each with two digits. Nothing for a timestamp
/// that chrono's calendar does not reach.
#[verifier::external_body]
fn format_clock(at: Timestamp) -> (text: Option<String>)
    ensures
        text matches Some(t) ==> t@ == clock_text(at.secs),
{
    chrono::DateTime::from_timestamp(at.secs, at.nanos).map(|d| d.format("%H:%M").to_string())
}

/// Mathematical model of [`MessageLines`].
pub struct MessageLinesView {
    pub sender: Seq<char>,
    pub time: Option<Seq<char>>,
    pub text: Seq<char>,
    pub is_outgoing: bool,
}

/// What the panel shows of one message: a header with the sender and the
/// time of day, then the text; a blank line follows.
#[derive(Debug)]
pub struct MessageLines {
    /// The sender, with a blank behind.
    pub sender: String,
    /// The time of day, as hours and minutes in UTC; nothing for a time
    /// that no calendar reaches.
    pub time: Option<String>,
    /// The preview of the content.
    pub text: String,
    /// Whether the message is the user's own, which decides its colours.
    pub is_outgoing: bool,
}

impl View for MessageLines {
    type V = MessageLinesView;

    open spec fn view(&self) -> MessageLinesView {
        MessageLinesView {
            sender: self.sender@,
            time: crate::messaging::types::opt_chars(self.time),
            text: self.text@,
            is_outgoing: self.is_outgoing,
        }
    }
}

/// How many lines of the panel a message takes.
pub const LINES_PER_MESSAGE: usize = 3;

/// What the panel shows of a message, given the time of day it shows.
pub open spec fn message_lines_of(msg: MessageView, time: Option<Seq<char>>) -> MessageLinesView {
    MessageLinesView {
        sender: msg.sender + " "@,
        time: time,
        text: msg.content.preview(),
        is_outgoing: msg.is_outgoing,
    }
}

/// What the panel shows of a message.
pub fn message_lines(msg: &UnifiedMessage) -> (lines: MessageLines)
    ensures
        lines@ == message_lines_of(msg@, lines@.time),
        lines@.time matches Some(t) ==> t == clock_text(msg.timestamp.secs),
{
    MessageLines {
        sender: joined(msg.sender.as_str(), " "),
        time: format_clock(msg.timestamp),
        text: String::from_str(msg.content.as_text()),
        is_outgoing: msg.is_outgoing,
    }
}

/// How many lines the panel scrolls past: enough to show the last lines of
/// all, less what the user scrolled back, and never less than none. The
/// border takes two lines of the height of the panel.
pub open spec fn effective_scroll_spec(messages: int, area_height: u16, scroll_offset: u16) -> u16 {
    let visible = if area_height >= 2 {
        area_height - 2
    } else {
        0
    };
    let total = messages * LINES_PER_MESSAGE;
    let auto_scroll = if total > visible {
        if total - visible > u16::MAX {
            u16::MAX as int
        } else {
            total - visible
        }
    } else {
        0
    };
    if auto_scroll > scroll_offset {
        (auto_scroll - scroll_offset) as u16
    } else {
        0
    }
}

/// How many lines the panel scrolls past.
pub fn effective_scroll(message_count: usize, area_height: u16, scroll_offset: u16) -> (scroll: u16)
    ensures
        scroll == effective_scroll_spec(message_count as int, area_height, scroll_offset),
{
    let visible: usize = if area_height >= 2 {
        (area_height - 2) as usize
    } else {
        0
    };
    let total: usize = if message_count > usize::MAX / LINES_PER_MESSAGE {
        usize::MAX
    } else {
        message_count * LINES_PER_MESSAGE
    };
    let auto_scroll: u16 = if total > visible {
        if total - visible > u16::MAX as usize {
            u16::MAX
        } else {
            (total - visible) as u16
        }
    } else {
        0
    };
    if auto_scroll > scroll_offset {
        auto_scroll - scroll_offset
    } else {
        0
    }
}

} // verus!
