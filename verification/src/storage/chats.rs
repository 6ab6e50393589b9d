//! The relation of chats: one row per chat id, read most recently written
//! first.

use vstd::prelude::*;
use vstd::seq_lib::to_multiset_insert;
use vstd::string::StringExecFns;

use crate::messaging::types::{ChatView, Timestamp, UnifiedChat};
use crate::storage::db::{
    chat_row, lemma_chat_put_keeps_unique, lemma_chat_row, lemma_chat_row_is, write_view,
    ChatRecord, ChatRecordView, Database, RowWrite, RowWriteView,
};
use crate::text::same_text;

verus! {

/// The row that an upsert leaves for a chat: every field is the incoming
/// one, but for the user's own name for the chat, which is the one the row
/// had before, or none where the row is new.
pub open spec fn upserted_row(
    before: Option<ChatRecordView>,
    incoming: ChatView,
    now: Timestamp,
) -> ChatRecordView {
    ChatRecordView {
        chat: ChatView {
            display_name: match before {
                Some(row) => row.chat.display_name,
                None => None,
            },
            ..incoming
        },
        updated_at: now,
    }
}

/// The relation after an upsert.
pub open spec fn upserted(rows: Seq<ChatRecordView>, incoming: ChatView, now: Timestamp) -> Seq<
    ChatRecordView,
> {
    let at = chat_row(rows, incoming.id);
    if at < rows.len() {
        rows.update(at, upserted_row(Some(rows[at]), incoming, now))
    } else {
        rows.push(upserted_row(None, incoming, now))
    }
}

/// The relation of chats after each chat of a batch was upserted, in order.
pub open spec fn upserted_all(
    rows: Seq<ChatRecordView>,
    batch: Seq<ChatView>,
    now: Timestamp,
) -> Seq<ChatRecordView>
    decreases batch.len(),
{
    if batch.len() == 0 {
        rows
    } else {
        upserted(upserted_all(rows, batch.drop_last(), now), batch.last(), now)
    }
}

/// The relation after the unread count of a chat was set. A chat that has no
/// row gets none.
pub open spec fn with_unread_count(
    rows: Seq<ChatRecordView>,
    id: Seq<char>,
    count: u32,
    now: Timestamp,
) -> Seq<ChatRecordView> {
    let at = chat_row(rows, id);
    if at < rows.len() {
        rows.update(
            at,
            ChatRecordView {
                chat: ChatView { unread_count: count, ..rows[at].chat },
                updated_at: now,
            },
        )
    } else {
        rows
    }
}

/// The relation after the user named a chat. The time of the row's last
/// write stays: a rename does not move the chat up.
pub open spec fn with_display_name(
    rows: Seq<ChatRecordView>,
    id: Seq<char>,
    name: Seq<char>,
) -> Seq<ChatRecordView> {
    let at = chat_row(rows, id);
    if at < rows.len() {
        rows.update(
            at,
            ChatRecordView { chat: ChatView { display_name: Some(name), ..rows[at].chat }, ..rows[at] },
        )
    } else {
        rows
    }
}

/// The relation after the preview of a chat was set.
pub open spec fn with_last_message(
    rows: Seq<ChatRecordView>,
    id: Seq<char>,
    preview: Seq<char>,
    now: Timestamp,
) -> Seq<ChatRecordView> {
    let at = chat_row(rows, id);
    if at < rows.len() {
        rows.update(
            at,
            ChatRecordView {
                chat: ChatView { last_message: Some(preview), ..rows[at].chat },
                updated_at: now,
            },
        )
    } else {
        rows
    }
}

/// What a write to the row of a chat hands back: the row as it now stands,
/// or nothing where the chat has no row.
pub open spec fn chat_write(
    rows_after: Seq<ChatRecordView>,
    id: Seq<char>,
) -> Option<RowWriteView> {
    let at = chat_row(rows_after, id);
    if at < rows_after.len() {
        Some(RowWriteView::Chat(rows_after[at]))
    } else {
        None
    }
}

/// Where a row written at `at` goes among rows ordered most recent first:
/// before the first row that is older, behind every row as recent.
pub open spec fn recency_slot(sorted: Seq<ChatRecordView>, at: Timestamp) -> int
    decreases sorted.len(),
{
    if sorted.len() == 0 {
        0
    } else {
        let earlier = recency_slot(sorted.drop_last(), at);
        if earlier < sorted.len() - 1 {
            earlier
        } else if sorted.last().updated_at.before_spec(at) {
            sorted.len() - 1
        } else {
            sorted.len() as int
        }
    }
}

/// The rows ordered by the time of their last write, most recent first; rows
/// written at the same time keep the order of the relation.
pub open spec fn recent_first(rows: Seq<ChatRecordView>) -> Seq<ChatRecordView>
    decreases rows.len(),
{
    if rows.len() == 0 {
        Seq::empty()
    } else {
        let sorted = recent_first(rows.drop_last());
        sorted.insert(recency_slot(sorted, rows.last().updated_at), rows.last())
    }
}

/// The chats of a sequence of rows.
pub open spec fn chats_of(rows: Seq<ChatRecordView>) -> Seq<ChatView> {
    rows.map_values(|row: ChatRecordView| row.chat)
}

/// `recency_slot` is the first index that holds an older row.
pub proof fn lemma_recency_slot(sorted: Seq<ChatRecordView>, at: Timestamp)
    ensures
        0 <= recency_slot(sorted, at) <= sorted.len(),
        recency_slot(sorted, at) < sorted.len() ==> sorted[recency_slot(
            sorted,
            at,
        )].updated_at.before_spec(at),
        forall|j: int|
            0 <= j < recency_slot(sorted, at) ==> !(#[trigger] sorted[j]).updated_at.before_spec(at),
    decreases sorted.len(),
{
    if sorted.len() > 0 {
        lemma_recency_slot(sorted.drop_last(), at);
        let p = recency_slot(sorted.drop_last(), at);
        assert forall|j: int| 0 <= j < recency_slot(sorted, at) implies !(
        #[trigger] sorted[j]).updated_at.before_spec(at) by {
            if j < sorted.len() - 1 {
                assert(sorted.drop_last()[j] == sorted[j]);
            }
        }
        if p < sorted.len() - 1 {
            assert(sorted.drop_last()[p] == sorted[p]);
        }
    }
}

/// An index that holds an older row, with none before it, is the `recency_slot`.
pub proof fn lemma_recency_slot_is(sorted: Seq<ChatRecordView>, at: Timestamp, slot: int)
    requires
        0 <= slot <= sorted.len(),
        slot < sorted.len() ==> sorted[slot].updated_at.before_spec(at),
        forall|j: int| 0 <= j < slot ==> !(#[trigger] sorted[j]).updated_at.before_spec(at),
    ensures
        recency_slot(sorted, at) == slot,
{
    lemma_recency_slot(sorted, at);
}

/// Whether no row stands before a more recent one.
pub open spec fn is_recent_first(rows: Seq<ChatRecordView>) -> bool {
    forall|i: int, j: int|
        0 <= i < j < rows.len() ==> !(#[trigger] rows[i]).updated_at.before_spec(
            (#[trigger] rows[j]).updated_at,
        )
}

/// Reading most recent first loses and invents no row, and hands the rows
/// out in that order.
pub proof fn lemma_recent_first(rows: Seq<ChatRecordView>)
    ensures
        recent_first(rows).len() == rows.len(),
        recent_first(rows).to_multiset() == rows.to_multiset(),
        is_recent_first(recent_first(rows)),
    decreases rows.len(),
{
    if rows.len() == 0 {
        assert(recent_first(rows) =~= rows);
    } else {
        let rest = rows.drop_last();
        let last = rows.last();
        let sorted = recent_first(rest);
        let slot = recency_slot(sorted, last.updated_at);
        lemma_recent_first(rest);
        lemma_recency_slot(sorted, last.updated_at);
        to_multiset_insert(sorted, slot, last);
        vstd::seq_lib::to_multiset_build(rest, last);
        assert(rest.push(last) =~= rows);
        let after = sorted.insert(slot, last);
        assert forall|i: int, j: int| 0 <= i < j < after.len() implies !(
        #[trigger] after[i]).updated_at.before_spec((#[trigger] after[j]).updated_at) by {
            if j < slot {
                assert(after[i] == sorted[i] && after[j] == sorted[j]);
            } else if j == slot {
                assert(after[i] == sorted[i]);
            } else if i < slot {
                assert(after[i] == sorted[i] && after[j] == sorted[j - 1]);
                if slot < sorted.len() {
                    assert(!sorted[i].updated_at.before_spec(sorted[j - 1].updated_at));
                }
            } else if i == slot {
                assert(after[j] == sorted[j - 1]);
                if j - 1 > slot {
                    assert(!sorted[slot].updated_at.before_spec(sorted[j - 1].updated_at));
                }
            } else {
                assert(after[i] == sorted[i - 1] && after[j] == sorted[j - 1]);
            }
        }
    }
}

impl Database {
    /// Index of the row of the given chat; the number of rows where it has none.
    pub(crate) fn find_chat_row(&self, id: &str) -> (at: usize)
        ensures
            at == chat_row(self@.chats, id@),
            at <= self.chats.len(),
    {
        let mut i: usize = 0;
        while i < self.chats.len()
            invariant
                0 <= i <= self.chats.len(),
                forall|j: int| 0 <= j < i ==> (#[trigger] self.chats.deep_view()[j]).chat.id != id@,
            decreases self.chats.len() - i,
        {
            if same_text(self.chats[i].chat.id.as_str(), id) {
                proof {
                    lemma_chat_row_is(self.chats.deep_view(), id@, i as int);
                }
                return i;
            }
            i += 1;
        }
        proof {
            lemma_chat_row_is(self.chats.deep_view(), id@, i as int);
        }
        i
    }

    /// Puts a row in as it is: in place of the row of its chat, or as a new
    /// row.
    pub fn put_chat_record(&mut self, row: ChatRecord)
        ensures
            final(self)@ == old(self)@.after_write(RowWriteView::Chat(row@)),
            old(self)@.keys_unique() ==> final(self)@.keys_unique(),
    {
        proof {
            lemma_chat_row(self@.chats, row@.chat.id);
            if old(self)@.keys_unique() {
                lemma_chat_put_keeps_unique(old(self)@.chats, row@);
            }
        }
        let at = self.find_chat_row(row.chat.id.as_str());
        if at < self.chats.len() {
            let ghost after = self.chats.deep_view().update(at as int, row@);
            self.chats.set(at, row);
            assert(self@.chats =~= after);
        } else {
            let ghost after = self.chats.deep_view().push(row@);
            self.chats.push(row);
            assert(self@.chats =~= after);
        }
    }

    /// Writes a chat as a backend reported it: a new row for a new id, else
    /// every field of the row replaced but the user's own name for the chat.
    pub fn upsert_chat(&mut self, chat: &UnifiedChat, now: Timestamp) -> (written: RowWrite)
        ensures
            final(self)@.chats == upserted(old(self)@.chats, chat@, now),
            final(self)@.messages == old(self)@.messages,
            final(self)@.sessions == old(self)@.sessions,
            old(self)@.keys_unique() ==> final(self)@.keys_unique(),
            Some(written@) == chat_write(final(self)@.chats, chat@.id),
            final(self)@ == old(self)@.after_write(written@),
    {
        proof {
            lemma_chat_row(self@.chats, chat@.id);
        }
        let at = self.find_chat_row(chat.id.as_str());
        let mut row = ChatRecord { chat: chat.clone(), updated_at: now };
        if at < self.chats.len() {
            row.chat.display_name = crate::messaging::types::clone_opt_string(
                &self.chats[at].chat.display_name,
            );
            let written = RowWrite::Chat(row.clone());
            let ghost after = self.chats.deep_view().update(at as int, row@);
            proof {
                assert(after =~= upserted(old(self)@.chats, chat@, now));
                lemma_chat_row_is(after, chat@.id, at as int);
                if old(self)@.keys_unique() {
                    lemma_chat_put_keeps_unique(old(self)@.chats, row@);
                }
            }
            self.chats.set(at, row);
            assert(self@.chats =~= after);
            written
        } else {
            row.chat.display_name = None;
            let written = RowWrite::Chat(row.clone());
            let ghost after = self.chats.deep_view().push(row@);
            proof {
                assert(after =~= upserted(old(self)@.chats, chat@, now));
                lemma_chat_row_is(after, chat@.id, at as int);
                if old(self)@.keys_unique() {
                    lemma_chat_put_keeps_unique(old(self)@.chats, row@);
                }
            }
            self.chats.push(row);
            assert(self@.chats =~= after);
            written
        }
    }

    /// The chats, most recently written first.
    pub fn get_all_chats(&self) -> (chats: Vec<UnifiedChat>)
        ensures
            chats.deep_view() == chats_of(recent_first(self@.chats)),
    {
        let mut times: Vec<Timestamp> = Vec::new();
        let mut chats: Vec<UnifiedChat> = Vec::new();
        let mut i: usize = 0;
        while i < self.chats.len()
            invariant
                0 <= i <= self.chats.len(),
                times.len() == chats.len(),
                chats.len() == recent_first(self@.chats.take(i as int)).len(),
                forall|k: int|
                    0 <= k < chats.len() ==> {
                        &&& times[k] == (#[trigger] recent_first(
                            self@.chats.take(i as int),
                        )[k]).updated_at
                        &&& chats[k]@ == recent_first(self@.chats.take(i as int))[k].chat
                    },
            decreases self.chats.len() - i,
        {
            let ghost sorted = recent_first(self@.chats.take(i as int));
            let row = &self.chats[i];
            let mut slot: usize = 0;
            while slot < times.len() && !times[slot].before(&row.updated_at)
                invariant
                    0 <= slot <= times.len(),
                    times.len() == sorted.len(),
                    forall|k: int| 0 <= k < times.len() ==> times[k] == (#[trigger] sorted[k]).updated_at,
                    forall|k: int|
                        0 <= k < slot ==> !(#[trigger] sorted[k]).updated_at.before_spec(row.updated_at),
                decreases times.len() - slot,
            {
                slot += 1;
            }
            proof {
                lemma_recency_slot_is(sorted, row.updated_at, slot as int);
                let next = self@.chats.take(i + 1);
                assert(next.drop_last() =~= self@.chats.take(i as int));
                assert(next.last() == row@);
            }
            times.insert(slot, row.updated_at);
            chats.insert(slot, row.chat.clone());
            i += 1;
        }
        proof {
            assert(self@.chats.take(self.chats.len() as int) =~= self@.chats);
            assert(chats.deep_view() =~= chats_of(recent_first(self@.chats)));
        }
        chats
    }

    /// Sets the unread count of a chat.
    pub fn update_unread_count(&mut self, chat_id: &str, count: u32, now: Timestamp) -> (written:
        Option<RowWrite>)
        ensures
            final(self)@.chats == with_unread_count(old(self)@.chats, chat_id@, count, now),
            final(self)@.messages == old(self)@.messages,
            final(self)@.sessions == old(self)@.sessions,
            old(self)@.keys_unique() ==> final(self)@.keys_unique(),
            write_view(written) == chat_write(final(self)@.chats, chat_id@),
            final(self)@ == old(self)@.after_optional_write(write_view(written)),
    {
        proof {
            lemma_chat_row(self@.chats, chat_id@);
        }
        let at = self.find_chat_row(chat_id);
        if at < self.chats.len() {
            let mut row = self.chats[at].clone();
            row.chat.unread_count = count;
            row.updated_at = now;
            let written = RowWrite::Chat(row.clone());
            let ghost after = self.chats.deep_view().update(at as int, row@);
            proof {
                assert(after =~= with_unread_count(old(self)@.chats, chat_id@, count, now));
                lemma_chat_row_is(after, chat_id@, at as int);
                if old(self)@.keys_unique() {
                    lemma_chat_put_keeps_unique(old(self)@.chats, row@);
                }
            }
            self.chats.set(at, row);
            assert(self@.chats =~= after);
            Some(written)
        } else {
            None
        }
    }

    /// Sets the user's own name for a chat.
    pub fn set_display_name(&mut self, chat_id: &str, display_name: &str) -> (written: Option<
        RowWrite,
    >)
        ensures
            final(self)@.chats == with_display_name(old(self)@.chats, chat_id@, display_name@),
            final(self)@.messages == old(self)@.messages,
            final(self)@.sessions == old(self)@.sessions,
            old(self)@.keys_unique() ==> final(self)@.keys_unique(),
            write_view(written) == chat_write(final(self)@.chats, chat_id@),
            final(self)@ == old(self)@.after_optional_write(write_view(written)),
    {
        proof {
            lemma_chat_row(self@.chats, chat_id@);
        }
        let at = self.find_chat_row(chat_id);
        if at < self.chats.len() {
            let mut row = self.chats[at].clone();
            row.chat.display_name = Some(String::from_str(display_name));
            let written = RowWrite::Chat(row.clone());
            let ghost after = self.chats.deep_view().update(at as int, row@);
            proof {
                assert(after =~= with_display_name(old(self)@.chats, chat_id@, display_name@));
                lemma_chat_row_is(after, chat_id@, at as int);
                if old(self)@.keys_unique() {
                    lemma_chat_put_keeps_unique(old(self)@.chats, row@);
                }
            }
            self.chats.set(at, row);
            assert(self@.chats =~= after);
            Some(written)
        } else {
            None
        }
    }

    /// Sets the preview of a chat.
    pub fn update_last_message(
        &mut self,
        chat_id: &str,
        last_message: &str,
        now: Timestamp,
    ) -> (written:
        Option<RowWrite>)
        ensures
            final(self)@.chats == with_last_message(old(self)@.chats, chat_id@, last_message@, now),
            final(self)@.messages == old(self)@.messages,
            final(self)@.sessions == old(self)@.sessions,
            old(self)@.keys_unique() ==> final(self)@.keys_unique(),
            write_view(written) == chat_write(final(self)@.chats, chat_id@),
            final(self)@ == old(self)@.after_optional_write(write_view(written)),
    {
        proof {
            lemma_chat_row(self@.chats, chat_id@);
        }
        let at = self.find_chat_row(chat_id);
        if at < self.chats.len() {
            let mut row = self.chats[at].clone();
            row.chat.last_message = Some(String::from_str(last_message));
            row.updated_at = now;
            let written = RowWrite::Chat(row.clone());
            let ghost after = self.chats.deep_view().update(at as int, row@);
            proof {
                assert(after =~= with_last_message(old(self)@.chats, chat_id@, last_message@, now));
                lemma_chat_row_is(after, chat_id@, at as int);
                if old(self)@.keys_unique() {
                    lemma_chat_put_keeps_unique(old(self)@.chats, row@);
                }
            }
            self.chats.set(at, row);
            assert(self@.chats =~= after);
            Some(written)
        } else {
            None
        }
    }
}

} // verus!
