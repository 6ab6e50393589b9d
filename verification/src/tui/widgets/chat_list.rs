//! The lines of the list of chats.

use vstd::prelude::*;
use vstd::string::StringExecFns;

use crate::messaging::types::{ChatView, UnifiedChat};
use crate::text::{decimal, decimal_text, joined};

verus! {

/// Mathematical model of [`ChatLine`].
pub struct ChatLineView {
    pub tag: Seq<char>,
    pub name: Seq<char>,
    pub unread: Seq<char>,
}

/// One line of the list of chats, in its three parts.
#[derive(Debug)]
pub struct ChatLine {
    /// The backend, in brackets.
    pub tag: String,
    /// The name the chat is shown under.
    pub name: String,
    /// The unread count in parentheses, or nothing for a chat without
    /// unread messages.
    pub unread: String,
}

impl View for ChatLine {
    type V = ChatLineView;

    open spec fn view(&self) -> ChatLineView {
        ChatLineView { tag: self.tag@, name: self.name@, unread: self.unread@ }
    }
}

impl DeepView for ChatLine {
    type V = ChatLineView;

    open spec fn deep_view(&self) -> ChatLineView {
        self@
    }
}

/// The line of a chat: the user's own name for it goes before the name the
/// backend gave, and a chat that has no name yet goes by its id.
pub open spec fn chat_line_of(chat: ChatView) -> ChatLineView {
    ChatLineView {
        tag: "["@ + chat.platform.label_spec() + "]"@,
        name: if chat.shown_name().len() > 0 {
            chat.shown_name()
        } else {
            chat.id
        },
        unread: if chat.unread_count > 0 {
            " ("@ + decimal_text(chat.unread_count as nat) + ")"@
        } else {
            Seq::empty()
        },
    }
}

/// The line of a chat.
pub fn chat_line(chat: &UnifiedChat) -> (line: ChatLine)
    ensures
        line@ == chat_line_of(chat@),
{
    let mut tag = joined("[", chat.platform.label().as_str());
    tag.append("]");
    let unread = if chat.unread_count > 0 {
        let mut text = joined(" (", decimal(chat.unread_count as u64).as_str());
        text.append(")");
        text
    } else {
        String::new()
    };
    let name = if chat.shown_name().is_empty() {
        chat.id.clone()
    } else {
        String::from_str(chat.shown_name())
    };
    ChatLine { tag, name, unread }
}

/// The lines of the list of chats, one per chat, in the order of the chats.
pub fn chat_list_lines(chats: &Vec<UnifiedChat>) -> (lines: Vec<ChatLine>)
    ensures
        lines.deep_view() == chats.deep_view().map_values(|c: ChatView| chat_line_of(c)),
{
    let mut lines: Vec<ChatLine> = Vec::new();
    let mut i: usize = 0;
    while i < chats.len()
        invariant
            0 <= i <= chats.len(),
            lines.len() == i,
            forall|k: int| 0 <= k < i ==> (#[trigger] lines.deep_view()[k]) == chat_line_of(chats[k]@),
        decreases chats.len() - i,
    {
        let ghost before = lines.deep_view();
        lines.push(chat_line(&chats[i]));
        assert(lines.deep_view() =~= before.push(chat_line_of(chats[i as int]@)));
        i += 1;
    }
    assert(lines.deep_view() =~= chats.deep_view().map_values(|c: ChatView| chat_line_of(c)));
    lines
}

} // verus!
