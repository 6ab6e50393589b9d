//! The merge policy: how normalized provider events change the list of chats
//! and the messages of the chat on screen.

use vstd::prelude::*;

use crate::messaging::types::{
    ChatView, MessageStatus, MessageView, UnifiedChat, UnifiedMessage,
};
use vstd::string::StringExecFns;
use crate::text::same_text;

verus! {

/// A character that a raw phone number is made of: a digit or `+`.
pub open spec fn is_phone_char(c: char) -> bool {
    ('0' <= c && c <= '9') || c == '+'
}

/// Whether a name is a raw identifier rather than a resolved, human-readable
/// name: every character of it is a digit or `+`.
pub open spec fn is_phone_shaped(name: Seq<char>) -> bool {
    forall|i: int| 0 <= i < name.len() ==> is_phone_char(#[trigger] name[i])
}

/// The name a known chat has after a refresh: the incoming one, unless that
/// would replace a resolved name by a raw identifier.
pub open spec fn merged_name(existing: Seq<char>, incoming: Seq<char>) -> Seq<char> {
    if is_phone_shaped(incoming) && !is_phone_shaped(existing) {
        existing
    } else {
        incoming
    }
}

/// A known chat after a refresh: only its name and its preview can change,
/// and an absent incoming preview keeps the one there is.
pub open spec fn merged_chat(existing: ChatView, incoming: ChatView) -> ChatView {
    ChatView {
        name: merged_name(existing.name, incoming.name),
        last_message: if incoming.last_message is Some {
            incoming.last_message
        } else {
            existing.last_message
        },
        ..existing
    }
}

/// Index of the first chat with the given id, or the length of the list where
/// there is none.
pub open spec fn chat_position(chats: Seq<ChatView>, id: Seq<char>) -> int
    decreases chats.len(),
{
    if chats.len() == 0 {
        0
    } else {
        let earlier = chat_position(chats.drop_last(), id);
        if earlier < chats.len() - 1 {
            earlier
        } else if chats.last().id == id {
            chats.len() - 1
        } else {
            chats.len() as int
        }
    }
}

/// Whether the list holds a chat with the given id.
pub open spec fn knows_chat(chats: Seq<ChatView>, id: Seq<char>) -> bool {
    chat_position(chats, id) < chats.len()
}

/// A chat as it enters the list: as the backend reported it, but without a
/// name of the user's own, which no backend can give.
pub open spec fn newly_added(incoming: ChatView) -> ChatView {
    ChatView { display_name: None, ..incoming }
}

/// The list after one refreshed chat: merged into the chat of that id, or
/// added at the end where the id is new.
pub open spec fn merge_one(chats: Seq<ChatView>, incoming: ChatView) -> Seq<ChatView> {
    let at = chat_position(chats, incoming.id);
    if at < chats.len() {
        chats.update(at, merged_chat(chats[at], incoming))
    } else {
        chats.push(newly_added(incoming))
    }
}

/// The list after a batch of refreshed chats, taken in order.
pub open spec fn merge_batch(chats: Seq<ChatView>, batch: Seq<ChatView>) -> Seq<ChatView>
    decreases batch.len(),
{
    if batch.len() == 0 {
        chats
    } else {
        merge_one(merge_batch(chats, batch.drop_last()), batch.last())
    }
}

/// `chat_position` is the first index that holds the id.
pub proof fn lemma_chat_position(chats: Seq<ChatView>, id: Seq<char>)
    ensures
        0 <= chat_position(chats, id) <= chats.len(),
        chat_position(chats, id) < chats.len() ==> chats[chat_position(chats, id)].id == id,
        forall|j: int| 0 <= j < chat_position(chats, id) ==> (#[trigger] chats[j]).id != id,
    decreases chats.len(),
{
    if chats.len() > 0 {
        lemma_chat_position(chats.drop_last(), id);
        let p = chat_position(chats.drop_last(), id);
        assert forall|j: int| 0 <= j < chat_position(chats, id) implies (#[trigger] chats[j]).id
            != id by {
            if j < chats.len() - 1 {
                assert(chats.drop_last()[j] == chats[j]);
            }
        }
        if p < chats.len() - 1 {
            assert(chats.drop_last()[p] == chats[p]);
        }
    }
}

/// An index that holds the id, with none before it, is the `chat_position`.
pub proof fn lemma_chat_position_is(chats: Seq<ChatView>, id: Seq<char>, at: int)
    requires
        0 <= at <= chats.len(),
        at < chats.len() ==> chats[at].id == id,
        forall|j: int| 0 <= j < at ==> (#[trigger] chats[j]).id != id,
    ensures
        chat_position(chats, id) == at,
{
    lemma_chat_position(chats, id);
}

/// Whether every character of the name is a digit or `+`.
pub fn looks_like_phone(name: &str) -> (shaped: bool)
    ensures
        shaped == is_phone_shaped(name@),
{
    let mut all: bool = true;
    for c in it: name.chars()
        invariant
            it.seq() == name@,
            all == is_phone_shaped(name@.take(it.index() as int)),
    {
        let ok = ('0' <= c && c <= '9') || c == '+';
        proof {
            let k = it.index() as int;
            let before = name@.take(k);
            let after = name@.take(k + 1);
            if all && ok {
                assert forall|i: int| 0 <= i < k + 1 implies is_phone_char(#[trigger] after[i]) by {
                    if i < k {
                        assert(before[i] == after[i]);
                    }
                }
            } else if !ok {
                assert(after[k] == c);
            } else {
                let j = choose|j: int| 0 <= j < k && !is_phone_char(#[trigger] before[j]);
                assert(after[j] == before[j]);
            }
        }
        all = all && ok;
    }
    proof {
        assert(name@.take(name@.len() as int) =~= name@);
    }
    all
}

/// Position of the first chat with the given id; the length of the list where
/// there is none.
pub fn find_chat(chats: &Vec<UnifiedChat>, id: &str) -> (at: usize)
    ensures
        at == chat_position(chats.deep_view(), id@),
{
    let mut i: usize = 0;
    while i < chats.len()
        invariant
            0 <= i <= chats.len(),
            forall|j: int| 0 <= j < i ==> (#[trigger] chats.deep_view()[j]).id != id@,
        decreases chats.len() - i,
    {
        if same_text(chats[i].id.as_str(), id) {
            proof {
                lemma_chat_position_is(chats.deep_view(), id@, i as int);
            }
            return i;
        }
        i += 1;
    }
    proof {
        lemma_chat_position_is(chats.deep_view(), id@, i as int);
    }
    i
}

/// Refreshes a known chat from an incoming one.
pub fn merge_into(existing: &mut UnifiedChat, incoming: UnifiedChat)
    ensures
        final(existing)@ == merged_chat(old(existing)@, incoming@),
{
    let keep_name = looks_like_phone(incoming.name.as_str()) && !looks_like_phone(
        existing.name.as_str(),
    );
    if incoming.last_message.is_some() {
        existing.last_message = incoming.last_message;
    }
    if !keep_name {
        existing.name = incoming.name;
    }
}

/// Applies one refreshed chat to the list.
pub fn merge_chat(chats: &mut Vec<UnifiedChat>, incoming: UnifiedChat)
    ensures
        final(chats).deep_view() == merge_one(old(chats).deep_view(), incoming@),
{
    let at = find_chat(chats, incoming.id.as_str());
    if at < chats.len() {
        merge_into(&mut chats[at], incoming);
        assert(chats.deep_view() =~= merge_one(old(chats).deep_view(), incoming@));
    } else {
        let mut added = incoming;
        added.display_name = None;
        chats.push(added);
        assert(chats.deep_view() =~= merge_one(old(chats).deep_view(), incoming@));
    }
}

/// Applies a batch of refreshed chats to the list, in order.
pub fn merge_chats(chats: &mut Vec<UnifiedChat>, batch: &Vec<UnifiedChat>)
    ensures
        final(chats).deep_view() == merge_batch(old(chats).deep_view(), batch.deep_view()),
{
    let mut i: usize = 0;
    while i < batch.len()
        invariant
            0 <= i <= batch.len(),
            chats.deep_view() == merge_batch(
                old(chats).deep_view(),
                batch.deep_view().take(i as int),
            ),
        decreases batch.len() - i,
    {
        proof {
            let next = batch.deep_view().take(i + 1);
            assert(next.drop_last() =~= batch.deep_view().take(i as int));
            assert(next.last() == batch[i as int]@);
        }
        merge_chat(chats, batch[i].clone());
        i += 1;
    }
    proof {
        assert(batch.deep_view().take(batch.len() as int) =~= batch.deep_view());
    }
}

/// An unread count one higher; a count at the top of its range stays there.
pub open spec fn bumped(count: u32) -> u32 {
    if count < u32::MAX {
        (count + 1) as u32
    } else {
        count
    }
}

/// Whether a message counts as unread: it is incoming and its chat is not
/// the one on screen.
pub open spec fn counts_as_unread(msg: MessageView, on_screen: bool) -> bool {
    !msg.is_outgoing && !on_screen
}

/// A known chat after a message of it arrived: the preview is the message's,
/// and the unread count is one higher where the message counts as unread.
pub open spec fn noted_chat(chat: ChatView, msg: MessageView, on_screen: bool) -> ChatView {
    ChatView {
        last_message: Some(msg.content.preview()),
        unread_count: if counts_as_unread(msg, on_screen) {
            bumped(chat.unread_count)
        } else {
            chat.unread_count
        },
        ..chat
    }
}

/// The chat that a message of an unknown chat brings into being. It has no
/// name yet, so that the first refresh names it, whatever the name.
pub open spec fn first_reference(msg: MessageView, on_screen: bool) -> ChatView {
    ChatView {
        id: msg.chat_id,
        platform: msg.platform,
        name: Seq::empty(),
        display_name: None,
        last_message: Some(msg.content.preview()),
        unread_count: if counts_as_unread(msg, on_screen) {
            1
        } else {
            0
        },
        is_group: false,
    }
}

/// The list of chats after a message arrived.
pub open spec fn note_message_spec(chats: Seq<ChatView>, msg: MessageView, on_screen: bool) -> Seq<
    ChatView,
> {
    let at = chat_position(chats, msg.chat_id);
    if at < chats.len() {
        chats.update(at, noted_chat(chats[at], msg, on_screen))
    } else {
        chats.push(first_reference(msg, on_screen))
    }
}

/// Index of the first message with the given id, or the length of the list
/// where there is none.
pub open spec fn message_position(messages: Seq<MessageView>, id: Seq<char>) -> int
    decreases messages.len(),
{
    if messages.len() == 0 {
        0
    } else {
        let earlier = message_position(messages.drop_last(), id);
        if earlier < messages.len() - 1 {
            earlier
        } else if messages.last().id == id {
            messages.len() - 1
        } else {
            messages.len() as int
        }
    }
}

/// The loaded messages after a status update: the message of that id, if it
/// is loaded, has the new status; nothing else changes.
pub open spec fn with_status(messages: Seq<MessageView>, id: Seq<char>, status: MessageStatus) -> Seq<
    MessageView,
> {
    let at = message_position(messages, id);
    if at < messages.len() {
        messages.update(at, MessageView { status: status, ..messages[at] })
    } else {
        messages
    }
}

/// `message_position` is the first index that holds the id.
pub proof fn lemma_message_position(messages: Seq<MessageView>, id: Seq<char>)
    ensures
        0 <= message_position(messages, id) <= messages.len(),
        message_position(messages, id) < messages.len() ==> messages[message_position(
            messages,
            id,
        )].id == id,
        forall|j: int| 0 <= j < message_position(messages, id) ==> (#[trigger] messages[j]).id != id,
    decreases messages.len(),
{
    if messages.len() > 0 {
        lemma_message_position(messages.drop_last(), id);
        let p = message_position(messages.drop_last(), id);
        assert forall|j: int| 0 <= j < message_position(messages, id) implies (
        #[trigger] messages[j]).id != id by {
            if j < messages.len() - 1 {
                assert(messages.drop_last()[j] == messages[j]);
            }
        }
        if p < messages.len() - 1 {
            assert(messages.drop_last()[p] == messages[p]);
        }
    }
}

/// An index that holds the id, with none before it, is the `message_position`.
pub proof fn lemma_message_position_is(messages: Seq<MessageView>, id: Seq<char>, at: int)
    requires
        0 <= at <= messages.len(),
        at < messages.len() ==> messages[at].id == id,
        forall|j: int| 0 <= j < at ==> (#[trigger] messages[j]).id != id,
    ensures
        message_position(messages, id) == at,
{
    lemma_message_position(messages, id);
}

/// Position of the first message with the given id; the length of the list
/// where there is none.
pub fn find_message(messages: &Vec<UnifiedMessage>, id: &str) -> (at: usize)
    ensures
        at == message_position(messages.deep_view(), id@),
{
    let mut i: usize = 0;
    while i < messages.len()
        invariant
            0 <= i <= messages.len(),
            forall|j: int| 0 <= j < i ==> (#[trigger] messages.deep_view()[j]).id != id@,
        decreases messages.len() - i,
    {
        if same_text(messages[i].id.as_str(), id) {
            proof {
                lemma_message_position_is(messages.deep_view(), id@, i as int);
            }
            return i;
        }
        i += 1;
    }
    proof {
        lemma_message_position_is(messages.deep_view(), id@, i as int);
    }
    i
}

/// Records a new message in the list of chats: its chat gets the message's
/// preview and, where the message counts as unread, a count one higher; an
/// unknown chat is created. Returns the index of the chat.
pub fn note_message(chats: &mut Vec<UnifiedChat>, msg: &UnifiedMessage, on_screen: bool) -> (at:
    usize)
    ensures
        final(chats).deep_view() == note_message_spec(old(chats).deep_view(), msg@, on_screen),
        at == chat_position(old(chats).deep_view(), msg@.chat_id),
        at < final(chats).len(),
{
    let at = find_chat(chats, msg.chat_id.as_str());
    let unread = !msg.is_outgoing && !on_screen;
    let preview = String::from_str(msg.content.as_text());
    if at < chats.len() {
        let chat = &mut chats[at];
        chat.last_message = Some(preview);
        if unread && chat.unread_count < u32::MAX {
            chat.unread_count = chat.unread_count + 1;
        }
        assert(chats.deep_view() =~= note_message_spec(old(chats).deep_view(), msg@, on_screen));
    } else {
        let count: u32 = if unread {
            1
        } else {
            0
        };
        chats.push(
            UnifiedChat {
                id: msg.chat_id.clone(),
                platform: msg.platform,
                name: String::new(),
                display_name: None,
                last_message: Some(preview),
                unread_count: count,
                is_group: false,
            },
        );
        assert(chats.deep_view() =~= note_message_spec(old(chats).deep_view(), msg@, on_screen));
    }
    at
}

/// Gives the loaded message of the given id its new status.
pub fn set_status(messages: &mut Vec<UnifiedMessage>, id: &str, status: MessageStatus)
    ensures
        final(messages).deep_view() == with_status(old(messages).deep_view(), id@, status),
{
    let at = find_message(messages, id);
    if at < messages.len() {
        messages[at].status = status;
        assert(messages.deep_view() =~= with_status(old(messages).deep_view(), id@, status));
    }
}

} // verus!
