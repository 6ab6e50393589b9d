//! The relation of messages: one row per message id, read per chat in the
//! order of their timestamps.

use vstd::prelude::*;
use vstd::seq_lib::{to_multiset_build, to_multiset_contains, to_multiset_insert};

use crate::messaging::types::{MessageStatus, MessageView, Platform, Timestamp, UnifiedMessage};
use crate::reconcile::{
    find_message, lemma_message_position, lemma_message_position_is, message_position, with_status,
};
use crate::storage::db::{
    message_ids_unique, put_message, write_view, Database, RowWrite, RowWriteView,
};
use crate::text::same_text;

verus! {

/// The messages of one chat, in the order of the relation.
pub open spec fn chat_messages(rows: Seq<MessageView>, chat_id: Seq<char>) -> Seq<MessageView>
    decreases rows.len(),
{
    if rows.len() == 0 {
        Seq::empty()
    } else if rows.last().chat_id == chat_id {
        chat_messages(rows.drop_last(), chat_id).push(rows.last())
    } else {
        chat_messages(rows.drop_last(), chat_id)
    }
}

/// Where a message sent at `at` goes among messages in the order of their
/// timestamps: before the first message that is later, behind every message
/// of the same time.
pub open spec fn time_slot(sorted: Seq<MessageView>, at: Timestamp) -> int
    decreases sorted.len(),
{
    if sorted.len() == 0 {
        0
    } else {
        let earlier = time_slot(sorted.drop_last(), at);
        if earlier < sorted.len() - 1 {
            earlier
        } else if at.before_spec(sorted.last().timestamp) {
            sorted.len() - 1
        } else {
            sorted.len() as int
        }
    }
}

/// The messages ordered by timestamp, earliest first; messages of the same
/// time keep the order they came in.
pub open spec fn in_time_order(rows: Seq<MessageView>) -> Seq<MessageView>
    decreases rows.len(),
{
    if rows.len() == 0 {
        Seq::empty()
    } else {
        let sorted = in_time_order(rows.drop_last());
        sorted.insert(time_slot(sorted, rows.last().timestamp), rows.last())
    }
}

/// What reading the messages of a chat gives.
pub open spec fn messages_for_chat(rows: Seq<MessageView>, chat_id: Seq<char>) -> Seq<MessageView> {
    in_time_order(chat_messages(rows, chat_id))
}

/// What a write to the row of a message hands back: the row as it now
/// stands, or nothing where no row has the id.
pub open spec fn message_write(rows_after: Seq<MessageView>, id: Seq<char>) -> Option<RowWriteView> {
    let at = message_position(rows_after, id);
    if at < rows_after.len() {
        Some(RowWriteView::Message(rows_after[at]))
    } else {
        None
    }
}

/// `time_slot` is the first index that holds a later message.
pub proof fn lemma_time_slot(sorted: Seq<MessageView>, at: Timestamp)
    ensures
        0 <= time_slot(sorted, at) <= sorted.len(),
        time_slot(sorted, at) < sorted.len() ==> at.before_spec(
            sorted[time_slot(sorted, at)].timestamp,
        ),
        forall|j: int|
            0 <= j < time_slot(sorted, at) ==> !at.before_spec((#[trigger] sorted[j]).timestamp),
    decreases sorted.len(),
{
    if sorted.len() > 0 {
        lemma_time_slot(sorted.drop_last(), at);
        let p = time_slot(sorted.drop_last(), at);
        assert forall|j: int| 0 <= j < time_slot(sorted, at) implies !at.before_spec(
            (#[trigger] sorted[j]).timestamp,
        ) by {
            if j < sorted.len() - 1 {
                assert(sorted.drop_last()[j] == sorted[j]);
            }
        }
        if p < sorted.len() - 1 {
            assert(sorted.drop_last()[p] == sorted[p]);
        }
    }
}

/// An index that holds a later message, with none before it, is the `time_slot`.
pub proof fn lemma_time_slot_is(sorted: Seq<MessageView>, at: Timestamp, slot: int)
    requires
        0 <= slot <= sorted.len(),
        slot < sorted.len() ==> at.before_spec(sorted[slot].timestamp),
        forall|j: int| 0 <= j < slot ==> !at.before_spec((#[trigger] sorted[j]).timestamp),
    ensures
        time_slot(sorted, at) == slot,
{
    lemma_time_slot(sorted, at);
}

/// Whether no message stands before an earlier one.
pub open spec fn is_in_time_order(rows: Seq<MessageView>) -> bool {
    forall|i: int, j: int|
        0 <= i < j < rows.len() ==> !(#[trigger] rows[j]).timestamp.before_spec(
            (#[trigger] rows[i]).timestamp,
        )
}

/// Ordering by timestamp loses and invents no message, and hands the
/// messages out earliest first.
pub proof fn lemma_in_time_order(rows: Seq<MessageView>)
    ensures
        in_time_order(rows).len() == rows.len(),
        in_time_order(rows).to_multiset() == rows.to_multiset(),
        is_in_time_order(in_time_order(rows)),
    decreases rows.len(),
{
    if rows.len() == 0 {
        assert(in_time_order(rows) =~= rows);
    } else {
        let rest = rows.drop_last();
        let last = rows.last();
        let sorted = in_time_order(rest);
        let slot = time_slot(sorted, last.timestamp);
        lemma_in_time_order(rest);
        lemma_time_slot(sorted, last.timestamp);
        to_multiset_insert(sorted, slot, last);
        to_multiset_build(rest, last);
        assert(rest.push(last) =~= rows);
        let after = sorted.insert(slot, last);
        assert forall|i: int, j: int| 0 <= i < j < after.len() implies !(
        #[trigger] after[j]).timestamp.before_spec((#[trigger] after[i]).timestamp) by {
            if j < slot {
                assert(after[i] == sorted[i] && after[j] == sorted[j]);
            } else if j == slot {
                assert(after[i] == sorted[i]);
            } else if i < slot {
                assert(after[i] == sorted[i] && after[j] == sorted[j - 1]);
            } else if i == slot {
                assert(after[j] == sorted[j - 1]);
                if j - 1 > slot {
                    assert(!sorted[j - 1].timestamp.before_spec(sorted[slot].timestamp));
                }
            } else {
                assert(after[i] == sorted[i - 1] && after[j] == sorted[j - 1]);
            }
        }
    }
}

/// The messages of a chat are the rows that carry its id.
pub proof fn lemma_chat_messages(rows: Seq<MessageView>, chat_id: Seq<char>)
    ensures
        forall|m: MessageView|
            #[trigger] chat_messages(rows, chat_id).contains(m) <==> rows.contains(m) && m.chat_id
                == chat_id,
    decreases rows.len(),
{
    let picked = chat_messages(rows, chat_id);
    if rows.len() > 0 {
        let rest = rows.drop_last();
        let last = rows.last();
        lemma_chat_messages(rest, chat_id);
        let before = chat_messages(rest, chat_id);
        assert forall|m: MessageView| #[trigger] picked.contains(m) <==> rows.contains(m)
            && m.chat_id == chat_id by {
            if picked.contains(m) {
                let k = choose|k: int| 0 <= k < picked.len() && picked[k] == m;
                if last.chat_id == chat_id && k == picked.len() - 1 {
                    assert(rows[rows.len() - 1] == m);
                } else {
                    assert(before[k] == m);
                    assert(before.contains(m));
                    assert(rest.contains(m));
                    let r = choose|r: int| 0 <= r < rest.len() && rest[r] == m;
                    assert(rows[r] == m);
                }
            }
            if rows.contains(m) && m.chat_id == chat_id {
                let r = choose|r: int| 0 <= r < rows.len() && rows[r] == m;
                if r == rows.len() - 1 {
                    assert(picked[picked.len() - 1] == m);
                } else {
                    assert(rest[r] == m);
                    assert(rest.contains(m));
                    assert(before.contains(m));
                    let k = choose|k: int| 0 <= k < before.len() && before[k] == m;
                    assert(picked[k] == m);
                }
            }
        }
    }
}

/// A message that was written is read back with its chat, equal in every
/// field, and it is the only message read that has its id.
pub proof fn lemma_written_message_is_read(rows: Seq<MessageView>, msg: MessageView)
    requires
        message_ids_unique(rows),
    ensures
        message_ids_unique(put_message(rows, msg)),
        messages_for_chat(put_message(rows, msg), msg.chat_id).contains(msg),
        forall|k: int|
            0 <= k < messages_for_chat(put_message(rows, msg), msg.chat_id).len() && (
            #[trigger] messages_for_chat(put_message(rows, msg), msg.chat_id)[k]).id == msg.id
                ==> messages_for_chat(put_message(rows, msg), msg.chat_id)[k] == msg,
{
    let after = put_message(rows, msg);
    let at = message_position(rows, msg.id);
    lemma_message_position(rows, msg.id);
    assert(after[at] == msg);
    assert(after.contains(msg));
    assert forall|i: int, j: int| 0 <= i < j < after.len() implies (#[trigger] after[i]).id != (
    #[trigger] after[j]).id by {
        if i != at && i < rows.len() {
            assert(after[i] == rows[i]);
        }
        if j != at && j < rows.len() {
            assert(after[j] == rows[j]);
        }
    }
    let picked = chat_messages(after, msg.chat_id);
    let read = messages_for_chat(after, msg.chat_id);
    lemma_chat_messages(after, msg.chat_id);
    lemma_in_time_order(picked);
    assert(picked.contains(msg));
    to_multiset_contains(picked, msg);
    to_multiset_contains(read, msg);
    assert forall|k: int| 0 <= k < read.len() && (#[trigger] read[k]).id == msg.id implies read[k]
        == msg by {
        assert(read.contains(read[k]));
        to_multiset_contains(picked, read[k]);
        to_multiset_contains(read, read[k]);
        assert(picked.contains(read[k]));
        assert(after.contains(read[k]));
        let r = choose|r: int| 0 <= r < after.len() && after[r] == read[k];
        if r != at {
            if r < at {
                assert(after[r].id != after[at].id);
            } else {
                assert(after[at].id != after[r].id);
            }
        }
    }
}

/// The platform that a persisted name stands for. A name that is not a
/// platform's stands for the mock backend.
pub open spec fn parsed_platform(name: Seq<char>) -> Platform {
    if name == "WhatsApp"@ {
        Platform::WhatsApp
    } else if name == "Telegram"@ {
        Platform::Telegram
    } else if name == "Slack"@ {
        Platform::Slack
    } else {
        Platform::Mock
    }
}

/// The status that a persisted name stands for. A name that is not a
/// status's stands for `Sent`.
pub open spec fn parsed_status(name: Seq<char>) -> MessageStatus {
    if name == "Sending"@ {
        MessageStatus::Sending
    } else if name == "Sent"@ {
        MessageStatus::Sent
    } else if name == "Delivered"@ {
        MessageStatus::Delivered
    } else if name == "Read"@ {
        MessageStatus::Read
    } else if name == "Failed"@ {
        MessageStatus::Failed
    } else {
        MessageStatus::Sent
    }
}

pub fn parse_platform(s: &str) -> (platform: Platform)
    ensures
        platform == parsed_platform(s@),
{
    if same_text(s, "WhatsApp") {
        Platform::WhatsApp
    } else if same_text(s, "Telegram") {
        Platform::Telegram
    } else if same_text(s, "Slack") {
        Platform::Slack
    } else {
        Platform::Mock
    }
}

pub fn parse_status(s: &str) -> (status: MessageStatus)
    ensures
        status == parsed_status(s@),
{
    if same_text(s, "Sending") {
        MessageStatus::Sending
    } else if same_text(s, "Sent") {
        MessageStatus::Sent
    } else if same_text(s, "Delivered") {
        MessageStatus::Delivered
    } else if same_text(s, "Read") {
        MessageStatus::Read
    } else if same_text(s, "Failed") {
        MessageStatus::Failed
    } else {
        MessageStatus::Sent
    }
}

/// Every platform is read back from the name it is persisted under.
pub proof fn lemma_platform_name_round_trip(platform: Platform)
    ensures
        parsed_platform(platform.name_spec()) == platform,
{
    reveal_strlit("WhatsApp");
    reveal_strlit("Telegram");
    reveal_strlit("Slack");
    reveal_strlit("Mock");
    // The names differ in length, or in their first letter.
    assert("WhatsApp"@.len() == 8 && "Telegram"@.len() == 8);
    assert("Slack"@.len() == 5 && "Mock"@.len() == 4);
    assert("WhatsApp"@[0] == 'W' && "Telegram"@[0] == 'T');
}

/// Every status is read back from the name it is persisted under.
pub proof fn lemma_status_name_round_trip(status: MessageStatus)
    ensures
        parsed_status(status.name_spec()) == status,
{
    reveal_strlit("Sending");
    reveal_strlit("Sent");
    reveal_strlit("Delivered");
    reveal_strlit("Read");
    reveal_strlit("Failed");
    // The names differ in length, or in their first letter.
    assert("Sending"@.len() == 7 && "Sent"@.len() == 4 && "Delivered"@.len() == 9);
    assert("Read"@.len() == 4 && "Failed"@.len() == 6);
    assert("Sent"@[0] == 'S' && "Read"@[0] == 'R');
}

impl Database {
    /// Writes a message: a new row for a new id, else the row of that id
    /// replaced.
    pub fn insert_message(&mut self, msg: &UnifiedMessage) -> (written: RowWrite)
        ensures
            final(self)@.messages == put_message(old(self)@.messages, msg@),
            final(self)@.chats == old(self)@.chats,
            final(self)@.sessions == old(self)@.sessions,
            old(self)@.keys_unique() ==> final(self)@.keys_unique(),
            written@ == RowWriteView::Message(msg@),
            final(self)@ == old(self)@.after_write(written@),
    {
        proof {
            lemma_message_position(self@.messages, msg@.id);
            if old(self)@.keys_unique() {
                lemma_written_message_is_read(self@.messages, msg@);
            }
        }
        let at = find_message(&self.messages, msg.id.as_str());
        if at < self.messages.len() {
            let ghost after = self.messages.deep_view().update(at as int, msg@);
            self.messages.set(at, msg.clone());
            assert(self@.messages =~= after);
        } else {
            let ghost after = self.messages.deep_view().push(msg@);
            self.messages.push(msg.clone());
            assert(self@.messages =~= after);
        }
        RowWrite::Message(msg.clone())
    }

    /// The messages of a chat, earliest first.
    pub fn get_messages_for_chat(&self, chat_id: &str) -> (messages: Vec<UnifiedMessage>)
        ensures
            messages.deep_view() == messages_for_chat(self@.messages, chat_id@),
    {
        let mut out: Vec<UnifiedMessage> = Vec::new();
        let mut i: usize = 0;
        while i < self.messages.len()
            invariant
                0 <= i <= self.messages.len(),
                out.deep_view() == messages_for_chat(self@.messages.take(i as int), chat_id@),
            decreases self.messages.len() - i,
        {
            let msg = &self.messages[i];
            proof {
                let next = self@.messages.take(i + 1);
                assert(next.drop_last() =~= self@.messages.take(i as int));
                assert(next.last() == msg@);
            }
            if same_text(msg.chat_id.as_str(), chat_id) {
                let ghost sorted = out.deep_view();
                let mut slot: usize = 0;
                while slot < out.len() && !msg.timestamp.before(&out[slot].timestamp)
                    invariant
                        0 <= slot <= out.len(),
                        out.deep_view() == sorted,
                        forall|k: int|
                            0 <= k < slot ==> !msg.timestamp.before_spec(
                                (#[trigger] sorted[k]).timestamp,
                            ),
                    decreases out.len() - slot,
                {
                    slot += 1;
                }
                proof {
                    lemma_time_slot_is(sorted, msg.timestamp, slot as int);
                    let picked = chat_messages(self@.messages.take(i + 1), chat_id@);
                    assert(picked.drop_last() =~= chat_messages(
                        self@.messages.take(i as int),
                        chat_id@,
                    ));
                }
                out.insert(slot, msg.clone());
                assert(out.deep_view() =~= sorted.insert(slot as int, msg@));
            }
            i += 1;
        }
        proof {
            assert(self@.messages.take(self.messages.len() as int) =~= self@.messages);
        }
        out
    }

    /// Sets the status of a message.
    pub fn update_message_status(&mut self, message_id: &str, status: MessageStatus) -> (written:
        Option<RowWrite>)
        ensures
            final(self)@.messages == with_status(old(self)@.messages, message_id@, status),
            final(self)@.chats == old(self)@.chats,
            final(self)@.sessions == old(self)@.sessions,
            old(self)@.keys_unique() ==> final(self)@.keys_unique(),
            write_view(written) == message_write(final(self)@.messages, message_id@),
            final(self)@ == old(self)@.after_optional_write(write_view(written)),
    {
        proof {
            lemma_message_position(self@.messages, message_id@);
        }
        let at = find_message(&self.messages, message_id);
        if at < self.messages.len() {
            let mut row = self.messages[at].clone();
            row.status = status;
            let written = RowWrite::Message(row.clone());
            let ghost after = self.messages.deep_view().update(at as int, row@);
            proof {
                assert(after =~= with_status(old(self)@.messages, message_id@, status));
                lemma_message_position_is(after, message_id@, at as int);
                if old(self)@.keys_unique() {
                    assert forall|i: int, j: int| 0 <= i < j < after.len() implies (
                    #[trigger] after[i]).id != (#[trigger] after[j]).id by {
                        assert(after[i].id == old(self)@.messages[i].id);
                        assert(after[j].id == old(self)@.messages[j].id);
                    }
                }
            }
            self.messages.set(at, row);
            assert(self@.messages =~= after);
            Some(written)
        } else {
            None
        }
    }
}

} // verus!
