//! What holds of the store, whatever its rows and whatever is written.

use vstd::prelude::*;

use crate::messaging::types::{ChatView, MessageView, Timestamp};
use crate::reconcile::{lemma_message_position, lemma_message_position_is, message_position};
use crate::storage::chats::{upserted, upserted_all, upserted_row, with_display_name};
use crate::storage::db::{
    chat_row, lemma_chat_row, lemma_chat_row_is, put_chat, put_message, ChatRecordView, DbView,
    RowWriteView,
};

verus! {

/// Writing the same message twice leaves the messages as writing it once
/// does.
pub proof fn lemma_put_message_idempotent(rows: Seq<MessageView>, msg: MessageView)
    ensures
        put_message(put_message(rows, msg), msg) == put_message(rows, msg),
{
    let once = put_message(rows, msg);
    let at = message_position(rows, msg.id);
    lemma_message_position(rows, msg.id);
    assert forall|j: int| 0 <= j < at implies (#[trigger] once[j]).id != msg.id by {
        assert(once[j] == rows[j]);
    }
    lemma_message_position_is(once, msg.id, at);
    assert(put_message(once, msg) =~= once);
}

/// Upserting the same chat twice at the same time leaves the chats as
/// upserting it once does.
pub proof fn lemma_upsert_idempotent(rows: Seq<ChatRecordView>, chat: ChatView, now: Timestamp)
    ensures
        upserted(upserted(rows, chat, now), chat, now) == upserted(rows, chat, now),
{
    let once = upserted(rows, chat, now);
    let at = chat_row(rows, chat.id);
    lemma_chat_row(rows, chat.id);
    assert forall|j: int| 0 <= j < at implies (#[trigger] once[j]).chat.id != chat.id by {
        assert(once[j] == rows[j]);
    }
    lemma_chat_row_is(once, chat.id, at);
    assert(upserted(once, chat, now) =~= once);
}

/// An upsert never touches the user's own name for a chat: the row of a
/// known chat keeps it, and a new row has none, whatever the backend sent.
pub proof fn lemma_upsert_keeps_display_name(rows: Seq<ChatRecordView>, chat: ChatView, now: Timestamp)
    ensures
        chat_row(upserted(rows, chat, now), chat.id) == chat_row(rows, chat.id),
        chat_row(rows, chat.id) < rows.len() ==> upserted(rows, chat, now)[chat_row(
            rows,
            chat.id,
        )].chat.display_name == rows[chat_row(rows, chat.id)].chat.display_name,
        chat_row(rows, chat.id) == rows.len() ==> upserted(rows, chat, now)[chat_row(
            rows,
            chat.id,
        )].chat.display_name is None,
        forall|j: int|
            0 <= j < rows.len() && j != chat_row(rows, chat.id) ==> (#[trigger] upserted(
                rows,
                chat,
                now,
            )[j]) == rows[j],
{
    let once = upserted(rows, chat, now);
    let at = chat_row(rows, chat.id);
    lemma_chat_row(rows, chat.id);
    assert forall|j: int| 0 <= j < at implies (#[trigger] once[j]).chat.id != chat.id by {
        assert(once[j] == rows[j]);
    }
    lemma_chat_row_is(once, chat.id, at);
}

/// A rename is the only write that gives a chat a name of the user's own,
/// and it is read back from the row.
pub proof fn lemma_rename_is_read_back(rows: Seq<ChatRecordView>, id: Seq<char>, name: Seq<char>)
    requires
        chat_row(rows, id) < rows.len(),
    ensures
        with_display_name(rows, id, name)[chat_row(rows, id)].chat.display_name == Some(name),
        with_display_name(rows, id, name)[chat_row(rows, id)].chat.name == rows[chat_row(
            rows,
            id,
        )].chat.name,
        with_display_name(rows, id, name)[chat_row(rows, id)].updated_at == rows[chat_row(
            rows,
            id,
        )].updated_at,
{
    lemma_chat_row(rows, id);
}

/// No write deletes the row of a chat: a chat that has a row keeps one, at
/// the same place.
pub proof fn lemma_chat_rows_are_never_deleted(db: DbView, write: RowWriteView, id: Seq<char>)
    requires
        chat_row(db.chats, id) < db.chats.len(),
    ensures
        db.after_write(write).chats.len() >= db.chats.len(),
        chat_row(db.after_write(write).chats, id) == chat_row(db.chats, id),
{
    match write {
        RowWriteView::Chat(row) => {
            let after = put_chat(db.chats, row);
            let at = chat_row(db.chats, id);
            lemma_chat_row(db.chats, id);
            lemma_chat_row(db.chats, row.chat.id);
            assert forall|j: int| 0 <= j < at implies (#[trigger] after[j]).chat.id != id by {
                assert(after[j].chat.id == db.chats[j].chat.id);
            }
            assert(after[at].chat.id == db.chats[at].chat.id);
            lemma_chat_row_is(after, id, at);
        },
        _ => {},
    }
}

/// The last entry of a batch that carries the given id, if any does.
pub open spec fn last_entry(batch: Seq<ChatView>, id: Seq<char>) -> Option<ChatView>
    decreases batch.len(),
{
    if batch.len() == 0 {
        None
    } else if batch.last().id == id {
        Some(batch.last())
    } else {
        last_entry(batch.drop_last(), id)
    }
}

/// A row after every entry of a batch that carries its chat's id was
/// upserted: the last such entry, with the user's own name of the row.
pub open spec fn settled(row: ChatRecordView, batch: Seq<ChatView>, now: Timestamp) -> ChatRecordView {
    match last_entry(batch, row.chat.id) {
        Some(c) => upserted_row(Some(row), c, now),
        None => row,
    }
}

/// What an upserted batch leaves at an index that held a row before: the
/// first row of each chat settled by the batch, any other as it was.
pub open spec fn expected_row_at(
    rows: Seq<ChatRecordView>,
    batch: Seq<ChatView>,
    now: Timestamp,
    p: int,
) -> ChatRecordView {
    if chat_row(rows, rows[p].chat.id) == p {
        settled(rows[p], batch, now)
    } else {
        rows[p]
    }
}

/// Whether the row at `at` is the first of its chat and is an entry of the
/// batch, added and then settled by the batch.
pub open spec fn is_added_row(
    rows: Seq<ChatRecordView>,
    batch: Seq<ChatView>,
    now: Timestamp,
    at: int,
) -> bool {
    &&& 0 <= at < rows.len()
    &&& chat_row(rows, rows[at].chat.id) == at
    &&& exists|j: int|
        0 <= j < batch.len() && #[trigger] settled(
            upserted_row(None, batch[j], now),
            batch,
            now,
        ) == rows[at]
}

/// Whether `after` is what upserting the batch makes of `rows`, index by
/// index.
pub open spec fn describes_rows(
    rows: Seq<ChatRecordView>,
    batch: Seq<ChatView>,
    now: Timestamp,
    after: Seq<ChatRecordView>,
) -> bool {
    &&& after.len() >= rows.len()
    &&& forall|p: int|
        0 <= p < rows.len() ==> (#[trigger] after[p]) == expected_row_at(rows, batch, now, p)
    &&& forall|p: int| rows.len() <= p < after.len() ==> #[trigger] is_added_row(after, batch, now, p)
    &&& forall|j: int|
        0 <= j < batch.len() ==> chat_row(after, (#[trigger] batch[j]).id) < after.len()
    &&& forall|id: Seq<char>|
        chat_row(rows, id) < rows.len() ==> #[trigger] chat_row(after, id) == chat_row(rows, id)
}

/// The last entry for an id carries that id.
proof fn lemma_last_entry(batch: Seq<ChatView>, id: Seq<char>)
    ensures
        last_entry(batch, id) matches Some(c) ==> c.id == id,
        last_entry(batch, id) is None ==> forall|j: int|
            0 <= j < batch.len() ==> (#[trigger] batch[j]).id != id,
    decreases batch.len(),
{
    if batch.len() > 0 {
        lemma_last_entry(batch.drop_last(), id);
        if last_entry(batch, id) is None {
            assert forall|j: int| 0 <= j < batch.len() implies (#[trigger] batch[j]).id != id by {
                if j < batch.len() - 1 {
                    assert(batch.drop_last()[j] == batch[j]);
                }
            }
        }
    }
}

/// Settling by a batch with one more entry is settling by the batch and then
/// upserting the entry, where the entry carries the row's id.
proof fn lemma_settled_push(row: ChatRecordView, rest: Seq<ChatView>, c: ChatView, now: Timestamp)
    ensures
        settled(row, rest, now).chat.id == row.chat.id,
        settled(row, rest, now).chat.display_name == row.chat.display_name,
        settled(row, rest.push(c), now) == (if c.id == row.chat.id {
            upserted_row(Some(settled(row, rest, now)), c, now)
        } else {
            settled(row, rest, now)
        }),
{
    let batch = rest.push(c);
    assert(batch.drop_last() =~= rest);
    assert(batch.last() == c);
    lemma_last_entry(rest, row.chat.id);
}

/// Settling a row by the same batch a second time changes nothing.
proof fn lemma_settled_twice(row: ChatRecordView, batch: Seq<ChatView>, now: Timestamp)
    ensures
        settled(settled(row, batch, now), batch, now) == settled(row, batch, now),
{
    lemma_last_entry(batch, row.chat.id);
}

/// One upserted chat leaves every id where it was, and its own id known.
proof fn lemma_upserted_positions(rows: Seq<ChatRecordView>, c: ChatView, now: Timestamp)
    ensures
        upserted(rows, c, now).len() >= rows.len(),
        forall|p: int|
            0 <= p < rows.len() ==> (#[trigger] upserted(rows, c, now)[p]).chat.id
                == rows[p].chat.id,
        forall|id: Seq<char>|
            chat_row(rows, id) < rows.len() ==> #[trigger] chat_row(upserted(rows, c, now), id)
                == chat_row(rows, id),
        chat_row(upserted(rows, c, now), c.id) == chat_row(rows, c.id),
        chat_row(upserted(rows, c, now), c.id) < upserted(rows, c, now).len(),
{
    let after = upserted(rows, c, now);
    let at = chat_row(rows, c.id);
    lemma_chat_row(rows, c.id);
    assert forall|p: int| 0 <= p < rows.len() implies (#[trigger] after[p]).chat.id
        == rows[p].chat.id by {}
    assert forall|id: Seq<char>| chat_row(rows, id) < rows.len() implies #[trigger] chat_row(
        after,
        id,
    ) == chat_row(rows, id) by {
        lemma_chat_row(rows, id);
        let q = chat_row(rows, id);
        assert forall|j: int| 0 <= j < q implies (#[trigger] after[j]).chat.id != id by {
            assert(after[j].chat.id == rows[j].chat.id);
        }
        assert(after[q].chat.id == rows[q].chat.id);
        lemma_chat_row_is(after, id, q);
    }
    if at == rows.len() {
        assert forall|j: int| 0 <= j < at implies (#[trigger] after[j]).chat.id != c.id by {
            assert(after[j] == rows[j]);
        }
        lemma_chat_row_is(after, c.id, at);
    }
}

/// The description of an upserted batch goes on to a batch with one more
/// entry.
proof fn lemma_describes_rows_step(
    rows: Seq<ChatRecordView>,
    rest: Seq<ChatView>,
    mid: Seq<ChatRecordView>,
    c: ChatView,
    now: Timestamp,
)
    requires
        describes_rows(rows, rest, now, mid),
    ensures
        describes_rows(rows, rest.push(c), now, upserted(mid, c, now)),
{
    let batch = rest.push(c);
    let after = upserted(mid, c, now);
    let at = chat_row(mid, c.id);
    lemma_chat_row(mid, c.id);
    lemma_upserted_positions(mid, c, now);
    assert forall|p: int| 0 <= p < rows.len() implies (#[trigger] after[p]) == expected_row_at(
        rows,
        batch,
        now,
        p,
    ) by {
        lemma_settled_push(rows[p], rest, c, now);
        assert(mid[p] == expected_row_at(rows, rest, now, p));
        lemma_chat_row(rows, rows[p].chat.id);
        assert(chat_row(mid, rows[p].chat.id) == chat_row(rows, rows[p].chat.id));
    }
    assert forall|p: int| rows.len() <= p < after.len() implies #[trigger] is_added_row(
        after,
        batch,
        now,
        p,
    ) by {
        if p < mid.len() {
            assert(is_added_row(mid, rest, now, p));
            assert(chat_row(after, mid[p].chat.id) == chat_row(mid, mid[p].chat.id));
            let j = choose|j: int|
                0 <= j < rest.len() && #[trigger] settled(
                    upserted_row(None, rest[j], now),
                    rest,
                    now,
                ) == mid[p];
            assert(batch[j] == rest[j]);
            lemma_settled_push(upserted_row(None, rest[j], now), rest, c, now);
            assert(settled(upserted_row(None, batch[j], now), batch, now) == after[p]);
        } else {
            let added = upserted_row(None, c, now);
            assert(after[p] == added);
            lemma_settled_push(added, rest, c, now);
            assert(batch[batch.len() - 1] == c);
            assert(settled(upserted_row(None, batch[batch.len() - 1], now), batch, now)
                == after[p]);
        }
    }
    assert forall|j: int| 0 <= j < batch.len() implies chat_row(after, (#[trigger] batch[j]).id)
        < after.len() by {
        if j < rest.len() {
            assert(batch[j] == rest[j]);
            assert(chat_row(mid, rest[j].id) < mid.len());
            assert(chat_row(after, rest[j].id) == chat_row(mid, rest[j].id));
        }
    }
    assert forall|id: Seq<char>| chat_row(rows, id) < rows.len() implies #[trigger] chat_row(
        after,
        id,
    ) == chat_row(rows, id) by {
        assert(chat_row(mid, id) == chat_row(rows, id));
    }
}

/// An upserted batch is what its description says.
proof fn lemma_upserted_all_described(rows: Seq<ChatRecordView>, batch: Seq<ChatView>, now: Timestamp)
    ensures
        describes_rows(rows, batch, now, upserted_all(rows, batch, now)),
    decreases batch.len(),
{
    if batch.len() == 0 {
        assert forall|p: int| 0 <= p < rows.len() implies (#[trigger] rows[p]) == expected_row_at(
            rows,
            batch,
            now,
            p,
        ) by {}
    } else {
        let rest = batch.drop_last();
        lemma_upserted_all_described(rows, rest, now);
        assert(rest.push(batch.last()) =~= batch);
        lemma_describes_rows_step(rows, rest, upserted_all(rows, rest, now), batch.last(), now);
    }
}

/// A batch whose chats all have rows adds no row.
proof fn lemma_known_batch_adds_no_row(rows: Seq<ChatRecordView>, batch: Seq<ChatView>, now: Timestamp)
    requires
        forall|j: int| 0 <= j < batch.len() ==> chat_row(rows, (#[trigger] batch[j]).id) < rows.len(),
    ensures
        upserted_all(rows, batch, now).len() == rows.len(),
    decreases batch.len(),
{
    if batch.len() > 0 {
        let rest = batch.drop_last();
        assert forall|j: int| 0 <= j < rest.len() implies chat_row(rows, (#[trigger] rest[j]).id)
            < rows.len() by {
            assert(rest[j] == batch[j]);
        }
        lemma_known_batch_adds_no_row(rows, rest, now);
        lemma_upserted_all_described(rows, rest, now);
        let last = batch[batch.len() - 1];
        let mid = upserted_all(rows, rest, now);
        assert(chat_row(rows, last.id) < rows.len());
        assert(chat_row(mid, last.id) == chat_row(rows, last.id));
        lemma_chat_row(mid, last.id);
    }
}

/// Upserting the same batch of chats twice, at the same time, leaves the
/// rows exactly as upserting it once does.
pub proof fn lemma_upserted_all_idempotent(rows: Seq<ChatRecordView>, batch: Seq<ChatView>, now: Timestamp)
    ensures
        upserted_all(upserted_all(rows, batch, now), batch, now) == upserted_all(rows, batch, now),
{
    let once = upserted_all(rows, batch, now);
    let twice = upserted_all(once, batch, now);
    lemma_upserted_all_described(rows, batch, now);
    lemma_upserted_all_described(once, batch, now);
    lemma_known_batch_adds_no_row(once, batch, now);
    assert forall|p: int| 0 <= p < once.len() implies twice[p] == once[p] by {
        assert(twice[p] == expected_row_at(once, batch, now, p));
        if chat_row(once, once[p].chat.id) == p {
            if p < rows.len() {
                assert(once[p] == expected_row_at(rows, batch, now, p));
                if chat_row(rows, rows[p].chat.id) == p {
                    lemma_settled_twice(rows[p], batch, now);
                } else {
                    lemma_chat_row(rows, rows[p].chat.id);
                }
            } else {
                assert(is_added_row(once, batch, now, p));
                let j = choose|j: int|
                    0 <= j < batch.len() && #[trigger] settled(
                        upserted_row(None, batch[j], now),
                        batch,
                        now,
                    ) == once[p];
                lemma_settled_twice(upserted_row(None, batch[j], now), batch, now);
            }
        }
    }
    assert(twice =~= once);
}

} // verus!
