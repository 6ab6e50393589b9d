//! From what the WhatsApp backend reports to the messages and chats of the
//! unified timeline.

use vstd::prelude::*;
use vstd::string::{StrSliceExecFns, StringExecFns};

use crate::messaging::types::{
    ContentView, MessageContent, MessageStatus, MessageView, Platform, Timestamp, UnifiedMessage,
};
use crate::text::joined;

verus! {

/// The prefix that tells the id of a WhatsApp chat from the ids of other
/// backends.
pub open spec fn chat_id_prefix() -> Seq<char> {
    "wa-"@
}

/// What the merge reads of a WhatsApp message: its text or caption, and
/// which kinds of attachment it carries.
#[derive(Debug)]
pub struct WaMessage {
    pub text: Option<String>,
    pub caption: Option<String>,
    pub has_image: bool,
    pub has_document: bool,
    pub has_audio: bool,
    pub has_video: bool,
    pub has_sticker: bool,
    pub has_contact: bool,
    pub has_location: bool,
}

/// Mathematical model of [`WaMessage`].
pub struct WaMessageView {
    pub text: Option<Seq<char>>,
    pub caption: Option<Seq<char>>,
    pub has_image: bool,
    pub has_document: bool,
    pub has_audio: bool,
    pub has_video: bool,
    pub has_sticker: bool,
    pub has_contact: bool,
    pub has_location: bool,
}

impl View for WaMessage {
    type V = WaMessageView;

    open spec fn view(&self) -> WaMessageView {
        WaMessageView {
            text: crate::messaging::types::opt_chars(self.text),
            caption: crate::messaging::types::opt_chars(self.caption),
            has_image: self.has_image,
            has_document: self.has_document,
            has_audio: self.has_audio,
            has_video: self.has_video,
            has_sticker: self.has_sticker,
            has_contact: self.has_contact,
            has_location: self.has_location,
        }
    }
}

/// The id of the chat of a WhatsApp address.
pub fn jid_to_chat_id(jid: &str) -> (chat_id: String)
    ensures
        chat_id@ == chat_id_prefix() + jid@,
{
    joined("wa-", jid)
}

/// The WhatsApp address of a chat id: what follows the prefix. An id without
/// the prefix is none of WhatsApp.
pub open spec fn jid_of_chat_id(chat_id: Seq<char>) -> Option<Seq<char>> {
    if chat_id.len() >= 3 && chat_id.take(3) == chat_id_prefix() {
        Some(chat_id.skip(3))
    } else {
        None
    }
}

/// The WhatsApp address of a chat id.
pub fn chat_id_to_jid(chat_id: &str) -> (jid: Option<String>)
    ensures
        crate::messaging::types::opt_chars(jid) == jid_of_chat_id(chat_id@),
{
    proof {
        reveal_strlit("wa-");
    }
    let len = chat_id.unicode_len();
    if len >= 3 && chat_id.get_char(0) == 'w' && chat_id.get_char(1) == 'a' && chat_id.get_char(2)
        == '-' {
        assert(chat_id@.take(3) =~= chat_id_prefix());
        let rest = chat_id.substring_char(3, len);
        assert(rest@ =~= chat_id@.skip(3));
        Some(String::from_str(rest))
    } else {
        proof {
            if chat_id@.len() >= 3 && chat_id@.take(3) == chat_id_prefix() {
                assert(chat_id@.take(3)[0] == chat_id@[0]);
                assert(chat_id@.take(3)[1] == chat_id@[1]);
                assert(chat_id@.take(3)[2] == chat_id@[2]);
            }
        }
        None
    }
}

/// Index of the first `@` of an address, or its length where it has none.
pub open spec fn at_sign_position(jid: Seq<char>) -> int
    decreases jid.len(),
{
    if jid.len() == 0 {
        0
    } else {
        let earlier = at_sign_position(jid.drop_last());
        if earlier < jid.len() - 1 {
            earlier
        } else if jid.last() == '@' {
            jid.len() - 1
        } else {
            jid.len() as int
        }
    }
}

/// The part of an address that names the user or the group: what stands
/// before the first `@`.
pub open spec fn display_name_of_jid(jid: Seq<char>) -> Seq<char> {
    jid.take(at_sign_position(jid))
}

/// `at_sign_position` is the first index that holds an `@`.
pub proof fn lemma_at_sign_position(jid: Seq<char>)
    ensures
        0 <= at_sign_position(jid) <= jid.len(),
        at_sign_position(jid) < jid.len() ==> jid[at_sign_position(jid)] == '@',
        forall|j: int| 0 <= j < at_sign_position(jid) ==> #[trigger] jid[j] != '@',
    decreases jid.len(),
{
    if jid.len() > 0 {
        lemma_at_sign_position(jid.drop_last());
        let p = at_sign_position(jid.drop_last());
        assert forall|j: int| 0 <= j < at_sign_position(jid) implies #[trigger] jid[j] != '@' by {
            if j < jid.len() - 1 {
                assert(jid.drop_last()[j] == jid[j]);
            }
        }
        if p < jid.len() - 1 {
            assert(jid.drop_last()[p] == jid[p]);
        }
    }
}

/// The part of an address that names the user or the group.
pub fn jid_to_display_name(jid: &str) -> (name: String)
    ensures
        name@ == display_name_of_jid(jid@),
{
    let total = jid.unicode_len();
    let mut found: Option<usize> = None;
    let mut index: usize = 0;
    for c in it: jid.chars()
        invariant
            it.seq() == jid@,
            total == jid@.len(),
            index == it.index(),
            match found {
                Some(at) => at < index && jid@[at as int] == '@' && forall|j: int|
                    0 <= j < at ==> #[trigger] jid@[j] != '@',
                None => forall|j: int| 0 <= j < index ==> #[trigger] jid@[j] != '@',
            },
    {
        if found.is_none() && c == '@' {
            found = Some(index);
        }
        index = index + 1;
    }
    let end = match found {
        Some(at) => at,
        None => index,
    };
    proof {
        lemma_at_sign_position(jid@);
        let p = at_sign_position(jid@);
        if p < end {
            assert(jid@[p] == '@');
        } else if end < p {
            assert(jid@[end as int] != '@');
        }
    }
    String::from_str(jid.substring_char(0, end))
}

/// The content that a WhatsApp message is shown as: its text, else its
/// caption, else the kind of its attachment; nothing for a message that has
/// none of these.
pub open spec fn wa_content(msg: WaMessageView) -> Option<ContentView> {
    match msg.text {
        Some(t) => Some(ContentView::Text(t)),
        None => match msg.caption {
            Some(c) => Some(ContentView::Text(c)),
            None => if msg.has_image {
                Some(ContentView::Text("[Image]"@))
            } else if msg.has_document {
                Some(ContentView::Text("[Document]"@))
            } else if msg.has_audio {
                Some(ContentView::Text("[Audio]"@))
            } else if msg.has_video {
                Some(ContentView::Text("[Video]"@))
            } else if msg.has_sticker {
                Some(ContentView::Text("[Sticker]"@))
            } else if msg.has_contact {
                Some(ContentView::Text("[Contact]"@))
            } else if msg.has_location {
                Some(ContentView::Text("[Location]"@))
            } else {
                None
            },
        },
    }
}

/// Who a WhatsApp message is shown as sent by: the user, else the name the
/// sender goes by, else the sender's address.
pub open spec fn wa_sender(
    push_name: Seq<char>,
    sender_jid: Seq<char>,
    is_from_me: bool,
) -> Seq<char> {
    if is_from_me {
        "You"@
    } else if push_name.len() > 0 {
        push_name
    } else {
        sender_jid
    }
}

/// The message of the unified timeline that a WhatsApp message becomes.
pub open spec fn wa_unified(
    msg: WaMessageView,
    push_name: Seq<char>,
    msg_id: Seq<char>,
    timestamp: Timestamp,
    chat_jid: Seq<char>,
    sender_jid: Seq<char>,
    is_from_me: bool,
) -> Option<MessageView> {
    match wa_content(msg) {
        Some(content) => Some(
            MessageView {
                id: msg_id,
                chat_id: chat_id_prefix() + chat_jid,
                platform: Platform::WhatsApp,
                sender: wa_sender(push_name, sender_jid, is_from_me),
                content: content,
                timestamp: timestamp,
                status: MessageStatus::Delivered,
                is_outgoing: is_from_me,
            },
        ),
        None => None,
    }
}

fn wa_message_content(msg: &WaMessage) -> (content: Option<MessageContent>)
    ensures
        match content {
            Some(c) => Some(c@) == wa_content(msg@),
            None => wa_content(msg@) is None,
        },
{
    match &msg.text {
        Some(t) => {
            return Some(MessageContent::Text(t.clone()));
        },
        None => {},
    }
    match &msg.caption {
        Some(c) => {
            return Some(MessageContent::Text(c.clone()));
        },
        None => {},
    }
    let label = if msg.has_image {
        "[Image]"
    } else if msg.has_document {
        "[Document]"
    } else if msg.has_audio {
        "[Audio]"
    } else if msg.has_video {
        "[Video]"
    } else if msg.has_sticker {
        "[Sticker]"
    } else if msg.has_contact {
        "[Contact]"
    } else if msg.has_location {
        "[Location]"
    } else {
        return None;
    };
    Some(MessageContent::Text(String::from_str(label)))
}

/// Makes a message of the unified timeline of a WhatsApp message.
pub fn wa_message_to_unified(
    msg: &WaMessage,
    push_name: &str,
    msg_id: &str,
    timestamp: Timestamp,
    chat_jid: &str,
    sender_jid: &str,
    is_from_me: bool,
    _is_group: bool,
) -> (unified: Option<UnifiedMessage>)
    ensures
        match unified {
            Some(m) => Some(m@) == wa_unified(
                msg@,
                push_name@,
                msg_id@,
                timestamp,
                chat_jid@,
                sender_jid@,
                is_from_me,
            ),
            None => wa_content(msg@) is None,
        },
{
    let content = match wa_message_content(msg) {
        Some(c) => c,
        None => {
            return None;
        },
    };
    let sender = if is_from_me {
        String::from_str("You")
    } else if !push_name.is_empty() {
        String::from_str(push_name)
    } else {
        String::from_str(sender_jid)
    };
    Some(
        UnifiedMessage {
            id: String::from_str(msg_id),
            chat_id: jid_to_chat_id(chat_jid),
            platform: Platform::WhatsApp,
            sender,
            content,
            timestamp,
            status: MessageStatus::Delivered,
            is_outgoing: is_from_me,
        },
    )
}

/// The text that goes out for a content: the text itself, or the preview of
/// what is no text.
pub fn outgoing_text(content: &MessageContent) -> (text: String)
    ensures
        text@ == content@.preview(),
{
    String::from_str(content.as_text())
}

/// The message that sending through WhatsApp hands back once the backend
/// gave it an id.
pub open spec fn wa_sent(
    msg_id: Seq<char>,
    chat_id: Seq<char>,
    content: ContentView,
    now: Timestamp,
) -> MessageView {
    MessageView {
        id: msg_id,
        chat_id: chat_id,
        platform: Platform::WhatsApp,
        sender: "You"@,
        content: content,
        timestamp: now,
        status: MessageStatus::Sent,
        is_outgoing: true,
    }
}

/// Builds the message that sending through WhatsApp hands back.
pub fn sent_message(msg_id: String, chat_id: &str, content: MessageContent, now: Timestamp) -> (msg:
    UnifiedMessage)
    ensures
        msg@ == wa_sent(msg_id@, chat_id@, content@, now),
{
    UnifiedMessage {
        id: msg_id,
        chat_id: String::from_str(chat_id),
        platform: Platform::WhatsApp,
        sender: String::from_str("You"),
        content,
        timestamp: now,
        status: MessageStatus::Sent,
        is_outgoing: true,
    }
}

} // verus!
