//! What holds of the merge policy, whatever the chats and the batch.

use vstd::prelude::*;

use crate::messaging::types::ChatView;
use crate::reconcile::{
    chat_position, is_phone_shaped, knows_chat, lemma_chat_position, lemma_chat_position_is,
    merge_batch, merge_one, merged_chat, merged_name, newly_added,
};

verus! {

/// The name that a chat of the given id ends with after a batch, when it
/// started with `name`.
pub open spec fn refreshed_name(name: Seq<char>, id: Seq<char>, batch: Seq<ChatView>) -> Seq<char>
    decreases batch.len(),
{
    if batch.len() == 0 {
        name
    } else if batch.last().id == id {
        merged_name(refreshed_name(name, id, batch.drop_last()), batch.last().name)
    } else {
        refreshed_name(name, id, batch.drop_last())
    }
}

/// The preview that a chat of the given id ends with after a batch, when it
/// started with `preview`.
pub open spec fn refreshed_preview(
    preview: Option<Seq<char>>,
    id: Seq<char>,
    batch: Seq<ChatView>,
) -> Option<Seq<char>>
    decreases batch.len(),
{
    if batch.len() == 0 {
        preview
    } else if batch.last().id == id && batch.last().last_message is Some {
        batch.last().last_message
    } else {
        refreshed_preview(preview, id, batch.drop_last())
    }
}

/// A chat after every entry of the batch that carries its id was merged into it.
pub open spec fn refreshed(chat: ChatView, batch: Seq<ChatView>) -> ChatView {
    ChatView {
        name: refreshed_name(chat.name, chat.id, batch),
        last_message: refreshed_preview(chat.last_message, chat.id, batch),
        ..chat
    }
}

/// Whether the batch holds an entry of the given id with a resolved name.
pub open spec fn brings_resolved_name(id: Seq<char>, batch: Seq<ChatView>) -> bool {
    exists|j: int|
        0 <= j < batch.len() && (#[trigger] batch[j]).id == id && !is_phone_shaped(batch[j].name)
}

/// Whether the batch holds an entry of the given id.
pub open spec fn mentions(id: Seq<char>, batch: Seq<ChatView>) -> bool {
    exists|j: int| 0 <= j < batch.len() && (#[trigger] batch[j]).id == id
}

/// Whether `at` is the first index of the list that holds its chat's id.
pub open spec fn is_first_of_its_id(chats: Seq<ChatView>, at: int) -> bool {
    0 <= at < chats.len() && chat_position(chats, chats[at].id) == at
}

/// Whether the chat at `at` is the first of its id and is an entry of the
/// batch, added and then refreshed by the batch.
pub open spec fn is_added_by(chats: Seq<ChatView>, batch: Seq<ChatView>, at: int) -> bool {
    &&& is_first_of_its_id(chats, at)
    &&& exists|j: int|
        0 <= j < batch.len() && #[trigger] refreshed(newly_added(batch[j]), batch) == chats[at]
}

/// What a merged batch leaves at an index that held a chat before: the
/// first chat of each id refreshed by the batch, any other as it was.
pub open spec fn expected_at(chats: Seq<ChatView>, batch: Seq<ChatView>, p: int) -> ChatView {
    if chat_position(chats, chats[p].id) == p {
        refreshed(chats[p], batch)
    } else {
        chats[p]
    }
}

/// Whether `after` is what the batch makes of `chats`, index by index: the
/// chats that were there keep their place and their id, the first chat of
/// each id is refreshed by the batch, every chat added is a first of its id,
/// and every id of the batch is known afterwards.
pub open spec fn describes(
    chats: Seq<ChatView>,
    batch: Seq<ChatView>,
    after: Seq<ChatView>,
) -> bool {
    &&& after.len() >= chats.len()
    &&& forall|p: int| 0 <= p < chats.len() ==> (#[trigger] after[p]) == expected_at(chats, batch, p)
    &&& forall|p: int| chats.len() <= p < after.len() ==> #[trigger] is_added_by(after, batch, p)
    &&& forall|j: int| 0 <= j < batch.len() ==> knows_chat(after, (#[trigger] batch[j]).id)
    &&& forall|id: Seq<char>|
        knows_chat(chats, id) ==> #[trigger] chat_position(after, id) == chat_position(chats, id)
}

/// A refreshed name is a raw identifier exactly when the name before was one
/// and the batch brought no resolved name.
proof fn lemma_refreshed_name_shape(name: Seq<char>, id: Seq<char>, batch: Seq<ChatView>)
    ensures
        is_phone_shaped(refreshed_name(name, id, batch)) == (is_phone_shaped(name)
            && !brings_resolved_name(id, batch)),
    decreases batch.len(),
{
    if batch.len() > 0 {
        let rest = batch.drop_last();
        lemma_refreshed_name_shape(name, id, rest);
        if brings_resolved_name(id, rest) {
            let j = choose|j: int|
                0 <= j < rest.len() && (#[trigger] rest[j]).id == id && !is_phone_shaped(
                    rest[j].name,
                );
            assert(batch[j] == rest[j]);
        }
        if brings_resolved_name(id, batch) && !brings_resolved_name(id, rest) {
            let j = choose|j: int|
                0 <= j < batch.len() && (#[trigger] batch[j]).id == id && !is_phone_shaped(
                    batch[j].name,
                );
            if j < rest.len() {
                assert(rest[j] == batch[j]);
            }
        }
        if batch.last().id == id && !is_phone_shaped(batch.last().name) {
            assert(batch[batch.len() - 1] == batch.last());
        }
    }
}

/// A batch that does not mention a chat's id leaves the chat as it is.
proof fn lemma_refreshed_unmentioned(chat: ChatView, batch: Seq<ChatView>)
    requires
        !mentions(chat.id, batch),
    ensures
        refreshed(chat, batch) == chat,
    decreases batch.len(),
{
    if batch.len() > 0 {
        let rest = batch.drop_last();
        assert(batch[batch.len() - 1].id != chat.id);
        assert forall|j: int| 0 <= j < rest.len() implies (#[trigger] rest[j]).id != chat.id by {
            assert(batch[j] == rest[j]);
        }
        lemma_refreshed_unmentioned(chat, rest);
    }
}

/// Refreshing by a batch with one more entry is refreshing by the batch and
/// then merging the entry, where the entry carries the chat's id.
proof fn lemma_refreshed_push(chat: ChatView, rest: Seq<ChatView>, c: ChatView)
    ensures
        refreshed(chat, rest.push(c)) == (if c.id == chat.id {
            merged_chat(refreshed(chat, rest), c)
        } else {
            refreshed(chat, rest)
        }),
{
    let batch = rest.push(c);
    assert(batch.drop_last() =~= rest);
    assert(batch.last() == c);
}

proof fn lemma_preview_twice(preview: Option<Seq<char>>, id: Seq<char>, batch: Seq<ChatView>)
    ensures
        refreshed_preview(refreshed_preview(preview, id, batch), id, batch) == refreshed_preview(
            preview,
            id,
            batch,
        ),
    decreases batch.len(),
{
    if batch.len() > 0 {
        let rest = batch.drop_last();
        if batch.last().id == id && batch.last().last_message is Some {
        } else {
            lemma_preview_twice(preview, id, rest);
        }
    }
}

proof fn lemma_name_twice(name: Seq<char>, id: Seq<char>, batch: Seq<ChatView>)
    ensures
        refreshed_name(refreshed_name(name, id, batch), id, batch) == refreshed_name(
            name,
            id,
            batch,
        ),
    decreases batch.len(),
{
    if batch.len() > 0 {
        let rest = batch.drop_last();
        let last = batch.last();
        let once = refreshed_name(name, id, batch);
        if last.id != id {
            lemma_name_twice(name, id, rest);
        } else if !is_phone_shaped(last.name) {
        } else {
            assert(batch[batch.len() - 1] == last);
            let before = refreshed_name(name, id, rest);
            lemma_refreshed_name_shape(name, id, rest);
            lemma_refreshed_name_shape(once, id, rest);
            if !is_phone_shaped(before) {
                // `once` is the resolved name `before`, which the rest keeps.
                lemma_name_twice(name, id, rest);
            } else {
                // `once` is the raw name of the last entry; the rest brings
                // no resolved name, so it ends with a raw name again.
                assert(once == last.name);
            }
        }
    }
}

/// Merging the same batch into a chat a second time changes nothing.
proof fn lemma_refreshed_twice(chat: ChatView, batch: Seq<ChatView>)
    ensures
        refreshed(refreshed(chat, batch), batch) == refreshed(chat, batch),
{
    lemma_name_twice(chat.name, chat.id, batch);
    lemma_preview_twice(chat.last_message, chat.id, batch);
}

/// One merged chat leaves every id where it was, and its own id known.
proof fn lemma_merge_one_positions(chats: Seq<ChatView>, c: ChatView)
    ensures
        merge_one(chats, c).len() >= chats.len(),
        forall|p: int| 0 <= p < chats.len() ==> (#[trigger] merge_one(chats, c)[p]).id == chats[p].id,
        forall|id: Seq<char>|
            knows_chat(chats, id) ==> #[trigger] chat_position(merge_one(chats, c), id)
                == chat_position(chats, id),
        chat_position(merge_one(chats, c), c.id) == chat_position(chats, c.id),
        knows_chat(merge_one(chats, c), c.id),
{
    let after = merge_one(chats, c);
    let at = chat_position(chats, c.id);
    lemma_chat_position(chats, c.id);
    assert forall|p: int| 0 <= p < chats.len() implies (#[trigger] after[p]).id == chats[p].id by {}
    assert forall|id: Seq<char>| knows_chat(chats, id) implies #[trigger] chat_position(after, id)
        == chat_position(chats, id) by {
        lemma_chat_position(chats, id);
        let q = chat_position(chats, id);
        assert forall|j: int| 0 <= j < q implies (#[trigger] after[j]).id != id by {
            assert(after[j].id == chats[j].id);
        }
        assert(after[q].id == chats[q].id);
        lemma_chat_position_is(after, id, q);
    }
    if at == chats.len() {
        assert forall|j: int| 0 <= j < at implies (#[trigger] after[j]).id != c.id by {
            assert(after[j] == chats[j]);
        }
        lemma_chat_position_is(after, c.id, at);
    }
}

/// The description of a merged batch goes on to a batch with one more
/// entry, where the entry meets a chat of its id.
proof fn lemma_describes_known(
    chats: Seq<ChatView>,
    rest: Seq<ChatView>,
    mid: Seq<ChatView>,
    c: ChatView,
)
    requires
        describes(chats, rest, mid),
        knows_chat(mid, c.id),
    ensures
        describes(chats, rest.push(c), merge_one(mid, c)),
{
    let batch = rest.push(c);
    let after = merge_one(mid, c);
    let at = chat_position(mid, c.id);
    lemma_chat_position(mid, c.id);
    lemma_merge_one_positions(mid, c);
    assert forall|p: int| 0 <= p < chats.len() implies (#[trigger] after[p]) == expected_at(
        chats,
        batch,
        p,
    ) by {
        lemma_refreshed_push(chats[p], rest, c);
        assert(mid[p] == expected_at(chats, rest, p));
        lemma_chat_position(chats, chats[p].id);
        assert(knows_chat(chats, chats[p].id));
        assert(chat_position(mid, chats[p].id) == chat_position(chats, chats[p].id));
        if chats[p].id == c.id && p != at {
            // Not the first of its id: the entry went to an earlier chat.
        }
    }
    assert forall|p: int| chats.len() <= p < after.len() implies #[trigger] is_added_by(
        after,
        batch,
        p,
    ) by {
        assert(is_added_by(mid, rest, p));
        assert(knows_chat(mid, mid[p].id));
        assert(chat_position(after, mid[p].id) == chat_position(mid, mid[p].id));
        let j = choose|j: int|
            0 <= j < rest.len() && #[trigger] refreshed(newly_added(rest[j]), rest) == mid[p];
        assert(batch[j] == rest[j]);
        lemma_refreshed_push(newly_added(rest[j]), rest, c);
        assert(refreshed(newly_added(batch[j]), batch) == after[p]);
    }
    assert forall|j: int| 0 <= j < batch.len() implies knows_chat(after, (#[trigger] batch[j]).id) by {
        if j < rest.len() {
            assert(batch[j] == rest[j]);
            assert(knows_chat(mid, rest[j].id));
            assert(chat_position(after, rest[j].id) == chat_position(mid, rest[j].id));
        }
    }
    assert forall|id: Seq<char>| knows_chat(chats, id) implies #[trigger] chat_position(after, id)
        == chat_position(chats, id) by {
        assert(chat_position(mid, id) == chat_position(chats, id));
        assert(knows_chat(mid, id));
    }
}

/// The description of a merged batch goes on to a batch with one more
/// entry, where the entry brings a new chat.
proof fn lemma_describes_new(
    chats: Seq<ChatView>,
    rest: Seq<ChatView>,
    mid: Seq<ChatView>,
    c: ChatView,
)
    requires
        describes(chats, rest, mid),
        !knows_chat(mid, c.id),
    ensures
        describes(chats, rest.push(c), merge_one(mid, c)),
{
    let batch = rest.push(c);
    let after = merge_one(mid, c);
    lemma_chat_position(mid, c.id);
    lemma_merge_one_positions(mid, c);
    assert(after == mid.push(newly_added(c)));
    // Nothing in the batch before the entry carried its id.
    assert(!mentions(c.id, rest)) by {
        if mentions(c.id, rest) {
            let j = choose|j: int| 0 <= j < rest.len() && (#[trigger] rest[j]).id == c.id;
            assert(knows_chat(mid, rest[j].id));
        }
    }
    assert forall|p: int| 0 <= p < chats.len() implies (#[trigger] after[p]) == expected_at(
        chats,
        batch,
        p,
    ) by {
        lemma_refreshed_push(chats[p], rest, c);
        assert(mid[p] == expected_at(chats, rest, p));
        assert(after[p] == mid[p]);
        assert(after[p].id == chats[p].id);
    }
    assert forall|p: int| chats.len() <= p < after.len() implies #[trigger] is_added_by(
        after,
        batch,
        p,
    ) by {
        if p < mid.len() {
            assert(is_added_by(mid, rest, p));
            assert(after[p] == mid[p]);
            assert(knows_chat(mid, mid[p].id));
            assert(chat_position(after, mid[p].id) == chat_position(mid, mid[p].id));
            let j = choose|j: int|
                0 <= j < rest.len() && #[trigger] refreshed(newly_added(rest[j]), rest) == mid[p];
            assert(batch[j] == rest[j]);
            lemma_refreshed_push(newly_added(rest[j]), rest, c);
            assert(refreshed(newly_added(batch[j]), batch) == after[p]);
        } else {
            let added = newly_added(c);
            assert(after[p] == added);
            lemma_refreshed_unmentioned(added, rest);
            lemma_refreshed_push(added, rest, c);
            assert(merged_chat(added, c) == added);
            assert(batch[batch.len() - 1] == c);
            assert(refreshed(newly_added(batch[batch.len() - 1]), batch) == after[p]);
        }
    }
    assert forall|j: int| 0 <= j < batch.len() implies knows_chat(after, (#[trigger] batch[j]).id) by {
        if j < rest.len() {
            assert(batch[j] == rest[j]);
            assert(knows_chat(mid, rest[j].id));
            assert(chat_position(after, rest[j].id) == chat_position(mid, rest[j].id));
        }
    }
    assert forall|id: Seq<char>| knows_chat(chats, id) implies #[trigger] chat_position(after, id)
        == chat_position(chats, id) by {
        assert(chat_position(mid, id) == chat_position(chats, id));
        assert(knows_chat(mid, id));
    }
}

/// A merged batch is what its description says.
proof fn lemma_merge_batch_described(chats: Seq<ChatView>, batch: Seq<ChatView>)
    ensures
        describes(chats, batch, merge_batch(chats, batch)),
    decreases batch.len(),
{
    if batch.len() == 0 {
        assert forall|p: int| 0 <= p < chats.len() implies (#[trigger] chats[p]) == expected_at(
            chats,
            batch,
            p,
        ) by {}
    } else {
        let rest = batch.drop_last();
        let c = batch.last();
        let mid = merge_batch(chats, rest);
        lemma_merge_batch_described(chats, rest);
        assert(rest.push(c) =~= batch);
        if knows_chat(mid, c.id) {
            lemma_describes_known(chats, rest, mid, c);
        } else {
            lemma_describes_new(chats, rest, mid, c);
        }
    }
}

/// A batch whose ids are all known adds no chat.
proof fn lemma_known_batch_adds_nothing(chats: Seq<ChatView>, batch: Seq<ChatView>)
    requires
        forall|j: int| 0 <= j < batch.len() ==> knows_chat(chats, (#[trigger] batch[j]).id),
    ensures
        merge_batch(chats, batch).len() == chats.len(),
    decreases batch.len(),
{
    if batch.len() > 0 {
        let rest = batch.drop_last();
        assert forall|j: int| 0 <= j < rest.len() implies knows_chat(
            chats,
            (#[trigger] rest[j]).id,
        ) by {
            assert(rest[j] == batch[j]);
        }
        lemma_known_batch_adds_nothing(chats, rest);
        lemma_merge_batch_described(chats, rest);
        let last = batch[batch.len() - 1];
        let mid = merge_batch(chats, rest);
        assert(knows_chat(chats, last.id));
        assert(chat_position(mid, last.id) == chat_position(chats, last.id));
        lemma_chat_position(mid, last.id);
    }
}

/// Applying the same batch of refreshed chats twice leaves the list of chats
/// exactly as applying it once does: every field of every chat, the preview
/// included, and no chat more.
pub proof fn lemma_merge_batch_idempotent(chats: Seq<ChatView>, batch: Seq<ChatView>)
    ensures
        merge_batch(merge_batch(chats, batch), batch) == merge_batch(chats, batch),
{
    let once = merge_batch(chats, batch);
    let twice = merge_batch(once, batch);
    lemma_merge_batch_described(chats, batch);
    lemma_merge_batch_described(once, batch);
    lemma_known_batch_adds_nothing(once, batch);
    assert forall|p: int| 0 <= p < once.len() implies twice[p] == once[p] by {
        assert(twice[p] == expected_at(once, batch, p));
        if chat_position(once, once[p].id) == p {
            if p < chats.len() {
                assert(once[p] == expected_at(chats, batch, p));
                if chat_position(chats, chats[p].id) == p {
                    lemma_refreshed_twice(chats[p], batch);
                } else {
                    // Not the first of its id before, so not after either.
                    lemma_chat_position(chats, chats[p].id);
                    assert(knows_chat(chats, chats[p].id));
                }
            } else {
                assert(is_added_by(once, batch, p));
                let j = choose|j: int|
                    0 <= j < batch.len() && #[trigger] refreshed(newly_added(batch[j]), batch)
                        == once[p];
                lemma_refreshed_twice(newly_added(batch[j]), batch);
            }
        }
    }
    assert(twice =~= once);
}

/// A batch of refreshed chats changes no unread count, nor the platform or
/// the kind of a chat that the list knows.
pub proof fn lemma_merge_batch_keeps_unread_counts(chats: Seq<ChatView>, batch: Seq<ChatView>)
    ensures
        merge_batch(chats, batch).len() >= chats.len(),
        forall|p: int|
            0 <= p < chats.len() ==> {
                &&& (#[trigger] merge_batch(chats, batch)[p]).unread_count == chats[p].unread_count
                &&& merge_batch(chats, batch)[p].id == chats[p].id
                &&& merge_batch(chats, batch)[p].platform == chats[p].platform
                &&& merge_batch(chats, batch)[p].is_group == chats[p].is_group
            },
{
    let after = merge_batch(chats, batch);
    lemma_merge_batch_described(chats, batch);
    assert forall|p: int| 0 <= p < chats.len() implies {
        &&& (#[trigger] after[p]).unread_count == chats[p].unread_count
        &&& after[p].id == chats[p].id
        &&& after[p].platform == chats[p].platform
        &&& after[p].is_group == chats[p].is_group
    } by {
        assert(after[p] == expected_at(chats, batch, p));
    }
}

/// A chat that the list knows keeps the user's own name for it through any
/// batch, and no batch gives a chat such a name.
pub proof fn lemma_merge_batch_keeps_display_names(chats: Seq<ChatView>, batch: Seq<ChatView>)
    ensures
        merge_batch(chats, batch).len() >= chats.len(),
        forall|p: int|
            0 <= p < chats.len() ==> (#[trigger] merge_batch(chats, batch)[p]).display_name
                == chats[p].display_name,
        forall|p: int|
            chats.len() <= p < merge_batch(chats, batch).len() ==> (#[trigger] merge_batch(
                chats,
                batch,
            )[p]).display_name is None,
{
    let after = merge_batch(chats, batch);
    lemma_merge_batch_described(chats, batch);
    assert forall|p: int| 0 <= p < chats.len() implies (#[trigger] after[p]).display_name
        == chats[p].display_name by {
        assert(after[p] == expected_at(chats, batch, p));
    }
    assert forall|p: int| chats.len() <= p < after.len() implies (#[trigger] after[p]).display_name
        is None by {
        assert(is_added_by(after, batch, p));
    }
}

} // verus!
