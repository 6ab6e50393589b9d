//! The rows of the store as a durable copy holds them: every column a text
//! or a number.

use vstd::prelude::*;

use crate::clock::{rfc3339_instant, rfc3339_text};
use crate::messaging::types::{
    clone_opt_string, opt_chars, ChatView, MessageView, Timestamp, UnifiedChat, UnifiedMessage,
};
use crate::storage::content::{
    decode_content, decoded_content, encode_content, encoded_content, json_flat_object,
    json_nested_object,
};
use crate::storage::db::{ChatRecord, ChatRecordView, SessionRecord, SessionRecordView};
use crate::storage::messages::{parse_platform, parse_status, parsed_platform, parsed_status};

verus! {

/// Mathematical model of [`MessageRow`].
pub struct MessageRowView {
    pub id: Seq<char>,
    pub chat_id: Seq<char>,
    pub platform: Seq<char>,
    pub sender: Seq<char>,
    pub content: Seq<char>,
    pub timestamp: Seq<char>,
    pub status: Seq<char>,
    pub is_outgoing: i32,
}

/// A message as a row of columns.
#[derive(Debug)]
pub struct MessageRow {
    pub id: String,
    pub chat_id: String,
    pub platform: String,
    pub sender: String,
    pub content: String,
    pub timestamp: String,
    pub status: String,
    pub is_outgoing: i32,
}

impl View for MessageRow {
    type V = MessageRowView;

    open spec fn view(&self) -> MessageRowView {
        MessageRowView {
            id: self.id@,
            chat_id: self.chat_id@,
            platform: self.platform@,
            sender: self.sender@,
            content: self.content@,
            timestamp: self.timestamp@,
            status: self.status@,
            is_outgoing: self.is_outgoing,
        }
    }
}

/// Mathematical model of [`ChatRow`].
pub struct ChatRowView {
    pub id: Seq<char>,
    pub platform: Seq<char>,
    pub name: Seq<char>,
    pub display_name: Option<Seq<char>>,
    pub last_message: Option<Seq<char>>,
    pub unread_count: u32,
    pub is_group: i32,
    pub updated_at: Seq<char>,
}

/// A chat as a row of columns.
#[derive(Debug)]
pub struct ChatRow {
    pub id: String,
    pub platform: String,
    pub name: String,
    pub display_name: Option<String>,
    pub last_message: Option<String>,
    pub unread_count: u32,
    pub is_group: i32,
    pub updated_at: String,
}

impl View for ChatRow {
    type V = ChatRowView;

    open spec fn view(&self) -> ChatRowView {
        ChatRowView {
            id: self.id@,
            platform: self.platform@,
            name: self.name@,
            display_name: opt_chars(self.display_name),
            last_message: opt_chars(self.last_message),
            unread_count: self.unread_count,
            is_group: self.is_group,
            updated_at: self.updated_at@,
        }
    }
}

/// The column that a flag is kept in: 1 for set, 0 for not set.
pub open spec fn flag_column(flag: bool) -> i32 {
    if flag {
        1
    } else {
        0
    }
}

/// The row of a message; nothing where its content or its timestamp cannot
/// be written.
pub open spec fn message_row_of(msg: MessageView) -> Option<MessageRowView> {
    match (encoded_content(msg.content), rfc3339_text(msg.timestamp.secs, msg.timestamp.nanos)) {
        (Some(content), Some(timestamp)) => Some(
            MessageRowView {
                id: msg.id,
                chat_id: msg.chat_id,
                platform: msg.platform.name_spec(),
                sender: msg.sender,
                content: content,
                timestamp: timestamp,
                status: msg.status.name_spec(),
                is_outgoing: flag_column(msg.is_outgoing),
            },
        ),
        _ => None,
    }
}

/// The message of a row. A platform or a status that is none stands for the
/// mock backend or for `Sent`, a content that is none is taken as plain
/// text, and a timestamp that is none is replaced by `fallback`.
pub open spec fn message_of_row(row: MessageRowView, fallback: Timestamp) -> MessageView {
    MessageView {
        id: row.id,
        chat_id: row.chat_id,
        platform: parsed_platform(row.platform),
        sender: row.sender,
        content: decoded_content(
            json_flat_object(row.content),
            json_nested_object(row.content),
            row.content,
        ),
        timestamp: match rfc3339_instant(row.timestamp) {
            Some(at) => at,
            None => fallback,
        },
        status: parsed_status(row.status),
        is_outgoing: row.is_outgoing != 0,
    }
}

/// The row of a chat record; nothing where the time of its last write cannot
/// be written.
pub open spec fn chat_row_of(record: ChatRecordView) -> Option<ChatRowView> {
    match rfc3339_text(record.updated_at.secs, record.updated_at.nanos) {
        Some(updated_at) => Some(
            ChatRowView {
                id: record.chat.id,
                platform: record.chat.platform.name_spec(),
                name: record.chat.name,
                display_name: record.chat.display_name,
                last_message: record.chat.last_message,
                unread_count: record.chat.unread_count,
                is_group: flag_column(record.chat.is_group),
                updated_at: updated_at,
            },
        ),
        None => None,
    }
}

/// The chat record of a row. A time of last write that is none is replaced
/// by `fallback`.
pub open spec fn chat_of_row(row: ChatRowView, fallback: Timestamp) -> ChatRecordView {
    ChatRecordView {
        chat: ChatView {
            id: row.id,
            platform: parsed_platform(row.platform),
            name: row.name,
            display_name: row.display_name,
            last_message: row.last_message,
            unread_count: row.unread_count,
            is_group: row.is_group != 0,
        },
        updated_at: match rfc3339_instant(row.updated_at) {
            Some(at) => at,
            None => fallback,
        },
    }
}

/// Reading the row of a message gives the message back, in every field,
/// where the content and the timestamp are read back from their texts.
/// Whether they are is up to the JSON and the calendar library; the names of
/// platform and status and the flag are read back in any case.
pub proof fn lemma_message_row_round_trip(msg: MessageView, fallback: Timestamp)
    ensures
        message_row_of(msg) matches Some(row) ==> {
            let read = message_of_row(row, fallback);
            &&& read.id == msg.id
            &&& read.chat_id == msg.chat_id
            &&& read.platform == msg.platform
            &&& read.sender == msg.sender
            &&& read.status == msg.status
            &&& read.is_outgoing == msg.is_outgoing
            &&& (read.content == msg.content && rfc3339_instant(row.timestamp) == Some(
                msg.timestamp,
            ) ==> read == msg)
        },
{
    crate::storage::messages::lemma_platform_name_round_trip(msg.platform);
    crate::storage::messages::lemma_status_name_round_trip(msg.status);
}

/// Reading the row of a chat gives the chat back, in every field; the time
/// of its last write too, where the calendar library reads it back.
pub proof fn lemma_chat_row_round_trip(record: ChatRecordView, fallback: Timestamp)
    ensures
        chat_row_of(record) matches Some(row) ==> {
            &&& chat_of_row(row, fallback).chat == record.chat
            &&& (rfc3339_instant(row.updated_at) == Some(record.updated_at) ==> chat_of_row(
                row,
                fallback,
            ) == record)
        },
{
    crate::storage::messages::lemma_platform_name_round_trip(record.chat.platform);
}

/// Writes a message as a row.
pub fn message_to_row(msg: &UnifiedMessage) -> (row: Option<MessageRow>)
    ensures
        match row {
            Some(r) => Some(r@) == message_row_of(msg@),
            None => message_row_of(msg@) is None,
        },
{
    let content = match encode_content(&msg.content) {
        Some(text) => text,
        None => {
            return None;
        },
    };
    let timestamp = match msg.timestamp.to_rfc3339() {
        Some(text) => text,
        None => {
            return None;
        },
    };
    Some(
        MessageRow {
            id: msg.id.clone(),
            chat_id: msg.chat_id.clone(),
            platform: msg.platform.name(),
            sender: msg.sender.clone(),
            content,
            timestamp,
            status: msg.status.name(),
            is_outgoing: if msg.is_outgoing {
                1
            } else {
                0
            },
        },
    )
}

/// Reads a message from a row.
pub fn message_from_row(row: &MessageRow, fallback: Timestamp) -> (msg: UnifiedMessage)
    ensures
        msg@ == message_of_row(row@, fallback),
{
    let timestamp = match Timestamp::from_rfc3339(row.timestamp.as_str()) {
        Some(at) => at,
        None => fallback,
    };
    UnifiedMessage {
        id: row.id.clone(),
        chat_id: row.chat_id.clone(),
        platform: parse_platform(row.platform.as_str()),
        sender: row.sender.clone(),
        content: decode_content(row.content.as_str()),
        timestamp,
        status: parse_status(row.status.as_str()),
        is_outgoing: row.is_outgoing != 0,
    }
}

/// Reads the messages of a list of rows, in the order of the rows.
pub fn messages_from_rows(rows: &Vec<MessageRow>, fallback: Timestamp) -> (messages: Vec<
    UnifiedMessage,
>)
    ensures
        messages.len() == rows.len(),
        forall|i: int|
            0 <= i < rows.len() ==> (#[trigger] messages[i])@ == message_of_row(rows[i]@, fallback),
{
    let mut messages: Vec<UnifiedMessage> = Vec::new();
    let mut i: usize = 0;
    while i < rows.len()
        invariant
            0 <= i <= rows.len(),
            messages.len() == i,
            forall|k: int|
                0 <= k < i ==> (#[trigger] messages[k])@ == message_of_row(rows[k]@, fallback),
        decreases rows.len() - i,
    {
        messages.push(message_from_row(&rows[i], fallback));
        i += 1;
    }
    messages
}

/// Writes a chat record as a row.
pub fn chat_to_row(record: &ChatRecord) -> (row: Option<ChatRow>)
    ensures
        match row {
            Some(r) => Some(r@) == chat_row_of(record@),
            None => chat_row_of(record@) is None,
        },
{
    let updated_at = match record.updated_at.to_rfc3339() {
        Some(text) => text,
        None => {
            return None;
        },
    };
    Some(
        ChatRow {
            id: record.chat.id.clone(),
            platform: record.chat.platform.name(),
            name: record.chat.name.clone(),
            display_name: clone_opt_string(&record.chat.display_name),
            last_message: clone_opt_string(&record.chat.last_message),
            unread_count: record.chat.unread_count,
            is_group: if record.chat.is_group {
                1
            } else {
                0
            },
            updated_at,
        },
    )
}

/// Reads a chat record from a row.
pub fn chat_from_row(row: &ChatRow, fallback: Timestamp) -> (record: ChatRecord)
    ensures
        record@ == chat_of_row(row@, fallback),
{
    let updated_at = match Timestamp::from_rfc3339(row.updated_at.as_str()) {
        Some(at) => at,
        None => fallback,
    };
    ChatRecord {
        chat: UnifiedChat {
            id: row.id.clone(),
            platform: parse_platform(row.platform.as_str()),
            name: row.name.clone(),
            display_name: clone_opt_string(&row.display_name),
            last_message: clone_opt_string(&row.last_message),
            unread_count: row.unread_count,
            is_group: row.is_group != 0,
        },
        updated_at,
    }
}

/// Mathematical model of [`SessionRow`].
pub struct SessionRowView {
    pub provider: Seq<char>,
    pub data: Seq<char>,
    pub updated_at: Seq<char>,
}

/// The session of a provider as a row of columns.
#[derive(Debug)]
pub struct SessionRow {
    pub provider: String,
    pub data: String,
    pub updated_at: String,
}

impl View for SessionRow {
    type V = SessionRowView;

    open spec fn view(&self) -> SessionRowView {
        SessionRowView { provider: self.provider@, data: self.data@, updated_at: self.updated_at@ }
    }
}

/// The row of a session record; nothing where the time of its last write
/// cannot be written.
pub open spec fn session_row_of(record: SessionRecordView) -> Option<SessionRowView> {
    match rfc3339_text(record.updated_at.secs, record.updated_at.nanos) {
        Some(updated_at) => Some(
            SessionRowView { provider: record.provider, data: record.data, updated_at: updated_at },
        ),
        None => None,
    }
}

/// The session record of a row. The session state is taken as it is; a time
/// of last write that is none is replaced by `fallback`.
pub open spec fn session_of_row(row: SessionRowView, fallback: Timestamp) -> SessionRecordView {
    SessionRecordView {
        provider: row.provider,
        data: row.data,
        updated_at: match rfc3339_instant(row.updated_at) {
            Some(at) => at,
            None => fallback,
        },
    }
}

/// Writes a session record as a row.
pub fn session_to_row(record: &SessionRecord) -> (row: Option<SessionRow>)
    ensures
        match row {
            Some(r) => Some(r@) == session_row_of(record@),
            None => session_row_of(record@) is None,
        },
{
    match record.updated_at.to_rfc3339() {
        Some(updated_at) => Some(
            SessionRow {
                provider: record.provider.clone(),
                data: record.data.clone(),
                updated_at,
            },
        ),
        None => None,
    }
}

/// Reads a session record from a row.
pub fn session_from_row(row: &SessionRow, fallback: Timestamp) -> (record: SessionRecord)
    ensures
        record@ == session_of_row(row@, fallback),
{
    let updated_at = match Timestamp::from_rfc3339(row.updated_at.as_str()) {
        Some(at) => at,
        None => fallback,
    };
    SessionRecord { provider: row.provider.clone(), data: row.data.clone(), updated_at }
}

} // verus!
