//! The store: three relations, each keyed by an id, held in memory. Every
//! write hands back the row it wrote, so that a durable copy can follow it.

use vstd::prelude::*;

use crate::messaging::types::{ChatView, MessageView, Timestamp, UnifiedChat, UnifiedMessage};
use crate::reconcile::message_position;

verus! {

/// Mathematical model of [`ChatRecord`].
pub struct ChatRecordView {
    pub chat: ChatView,
    pub updated_at: Timestamp,
}

/// A row of the relation of chats: the chat and when the row was last written.
#[derive(Debug)]
pub struct ChatRecord {
    pub chat: UnifiedChat,
    pub updated_at: Timestamp,
}

impl View for ChatRecord {
    type V = ChatRecordView;

    open spec fn view(&self) -> ChatRecordView {
        ChatRecordView { chat: self.chat@, updated_at: self.updated_at }
    }
}

impl DeepView for ChatRecord {
    type V = ChatRecordView;

    open spec fn deep_view(&self) -> ChatRecordView {
        self@
    }
}

impl Clone for ChatRecord {
    fn clone(&self) -> (copy: Self)
        ensures
            copy == *self,
    {
        ChatRecord { chat: self.chat.clone(), updated_at: self.updated_at }
    }
}

/// Mathematical model of [`SessionRecord`].
pub struct SessionRecordView {
    pub provider: Seq<char>,
    pub data: Seq<char>,
    pub updated_at: Timestamp,
}

/// A row of the relation of sessions: the opaque session state of one
/// provider and when it was written.
#[derive(Debug)]
pub struct SessionRecord {
    pub provider: String,
    pub data: String,
    pub updated_at: Timestamp,
}

impl View for SessionRecord {
    type V = SessionRecordView;

    open spec fn view(&self) -> SessionRecordView {
        SessionRecordView { provider: self.provider@, data: self.data@, updated_at: self.updated_at }
    }
}

impl DeepView for SessionRecord {
    type V = SessionRecordView;

    open spec fn deep_view(&self) -> SessionRecordView {
        self@
    }
}

impl Clone for SessionRecord {
    fn clone(&self) -> (copy: Self)
        ensures
            copy == *self,
    {
        SessionRecord {
            provider: self.provider.clone(),
            data: self.data.clone(),
            updated_at: self.updated_at,
        }
    }
}

/// Mathematical model of [`RowWrite`].
pub enum RowWriteView {
    Chat(ChatRecordView),
    Message(MessageView),
    Session(SessionRecordView),
    SessionGone(Seq<char>),
}

/// One row that a write left in the store, or the key of a row it removed.
#[derive(Debug)]
pub enum RowWrite {
    Chat(ChatRecord),
    Message(UnifiedMessage),
    Session(SessionRecord),
    SessionGone(String),
}

impl View for RowWrite {
    type V = RowWriteView;

    open spec fn view(&self) -> RowWriteView {
        match self {
            RowWrite::Chat(r) => RowWriteView::Chat(r@),
            RowWrite::Message(m) => RowWriteView::Message(m@),
            RowWrite::Session(s) => RowWriteView::Session(s@),
            RowWrite::SessionGone(p) => RowWriteView::SessionGone(p@),
        }
    }
}

impl DeepView for RowWrite {
    type V = RowWriteView;

    open spec fn deep_view(&self) -> RowWriteView {
        self@
    }
}

/// Index of the first row with the given chat id, or the number of rows
/// where there is none.
pub open spec fn chat_row(rows: Seq<ChatRecordView>, id: Seq<char>) -> int
    decreases rows.len(),
{
    if rows.len() == 0 {
        0
    } else {
        let earlier = chat_row(rows.drop_last(), id);
        if earlier < rows.len() - 1 {
            earlier
        } else if rows.last().chat.id == id {
            rows.len() - 1
        } else {
            rows.len() as int
        }
    }
}

/// Index of the first row with the given provider, or the number of rows
/// where there is none.
pub open spec fn session_row(rows: Seq<SessionRecordView>, provider: Seq<char>) -> int
    decreases rows.len(),
{
    if rows.len() == 0 {
        0
    } else {
        let earlier = session_row(rows.drop_last(), provider);
        if earlier < rows.len() - 1 {
            earlier
        } else if rows.last().provider == provider {
            rows.len() - 1
        } else {
            rows.len() as int
        }
    }
}

/// `chat_row` is the first index that holds the id.
pub proof fn lemma_chat_row(rows: Seq<ChatRecordView>, id: Seq<char>)
    ensures
        0 <= chat_row(rows, id) <= rows.len(),
        chat_row(rows, id) < rows.len() ==> rows[chat_row(rows, id)].chat.id == id,
        forall|j: int| 0 <= j < chat_row(rows, id) ==> (#[trigger] rows[j]).chat.id != id,
    decreases rows.len(),
{
    if rows.len() > 0 {
        lemma_chat_row(rows.drop_last(), id);
        let p = chat_row(rows.drop_last(), id);
        assert forall|j: int| 0 <= j < chat_row(rows, id) implies (#[trigger] rows[j]).chat.id
            != id by {
            if j < rows.len() - 1 {
                assert(rows.drop_last()[j] == rows[j]);
            }
        }
        if p < rows.len() - 1 {
            assert(rows.drop_last()[p] == rows[p]);
        }
    }
}

/// An index that holds the id, with none before it, is the `chat_row`.
pub proof fn lemma_chat_row_is(rows: Seq<ChatRecordView>, id: Seq<char>, at: int)
    requires
        0 <= at <= rows.len(),
        at < rows.len() ==> rows[at].chat.id == id,
        forall|j: int| 0 <= j < at ==> (#[trigger] rows[j]).chat.id != id,
    ensures
        chat_row(rows, id) == at,
{
    lemma_chat_row(rows, id);
}

/// `session_row` is the first index that holds the provider.
pub proof fn lemma_session_row(rows: Seq<SessionRecordView>, provider: Seq<char>)
    ensures
        0 <= session_row(rows, provider) <= rows.len(),
        session_row(rows, provider) < rows.len() ==> rows[session_row(rows, provider)].provider
            == provider,
        forall|j: int|
            0 <= j < session_row(rows, provider) ==> (#[trigger] rows[j]).provider != provider,
    decreases rows.len(),
{
    if rows.len() > 0 {
        lemma_session_row(rows.drop_last(), provider);
        let p = session_row(rows.drop_last(), provider);
        assert forall|j: int| 0 <= j < session_row(rows, provider) implies (
        #[trigger] rows[j]).provider != provider by {
            if j < rows.len() - 1 {
                assert(rows.drop_last()[j] == rows[j]);
            }
        }
        if p < rows.len() - 1 {
            assert(rows.drop_last()[p] == rows[p]);
        }
    }
}

/// An index that holds the provider, with none before it, is the `session_row`.
pub proof fn lemma_session_row_is(rows: Seq<SessionRecordView>, provider: Seq<char>, at: int)
    requires
        0 <= at <= rows.len(),
        at < rows.len() ==> rows[at].provider == provider,
        forall|j: int| 0 <= j < at ==> (#[trigger] rows[j]).provider != provider,
    ensures
        session_row(rows, provider) == at,
{
    lemma_session_row(rows, provider);
}

/// Mathematical model of the [`Database`]: its three relations, each in the
/// order in which its rows were first written.
pub struct DbView {
    pub chats: Seq<ChatRecordView>,
    pub messages: Seq<MessageView>,
    pub sessions: Seq<SessionRecordView>,
}

/// Whether no two rows are of the same chat.
pub open spec fn chat_ids_unique(rows: Seq<ChatRecordView>) -> bool {
    forall|i: int, j: int|
        0 <= i < j < rows.len() ==> (#[trigger] rows[i]).chat.id != (#[trigger] rows[j]).chat.id
}

/// Whether no two messages share their id.
pub open spec fn message_ids_unique(rows: Seq<MessageView>) -> bool {
    forall|i: int, j: int|
        0 <= i < j < rows.len() ==> (#[trigger] rows[i]).id != (#[trigger] rows[j]).id
}

/// Whether no two rows are of the same provider.
pub open spec fn providers_unique(rows: Seq<SessionRecordView>) -> bool {
    forall|i: int, j: int|
        0 <= i < j < rows.len() ==> (#[trigger] rows[i]).provider != (#[trigger] rows[j]).provider
}

impl DbView {
    /// No two rows of a relation share their key. A store starts out so,
    /// and every write keeps it so.
    pub open spec fn keys_unique(self) -> bool {
        &&& chat_ids_unique(self.chats)
        &&& message_ids_unique(self.messages)
        &&& providers_unique(self.sessions)
    }
}

/// The view of a row that a write handed back, if it handed one back.
pub open spec fn write_view(written: Option<RowWrite>) -> Option<RowWriteView> {
    match written {
        Some(w) => Some(w@),
        None => None,
    }
}

/// Writing over the row of a chat, or adding a row for a chat that has none,
/// keeps the chats of the rows distinct.
pub proof fn lemma_chat_put_keeps_unique(rows: Seq<ChatRecordView>, row: ChatRecordView)
    requires
        chat_ids_unique(rows),
    ensures
        chat_row(rows, row.chat.id) < rows.len() ==> chat_ids_unique(
            rows.update(chat_row(rows, row.chat.id), row),
        ),
        chat_row(rows, row.chat.id) == rows.len() ==> chat_ids_unique(rows.push(row)),
{
    lemma_chat_row(rows, row.chat.id);
    let at = chat_row(rows, row.chat.id);
    if at < rows.len() {
        let after = rows.update(at, row);
        assert forall|i: int, j: int| 0 <= i < j < after.len() implies (#[trigger] after[i]).chat.id
            != (#[trigger] after[j]).chat.id by {
            assert(after[i].chat.id == rows[i].chat.id);
            assert(after[j].chat.id == rows[j].chat.id);
        }
    } else {
        let after = rows.push(row);
        assert forall|i: int, j: int| 0 <= i < j < after.len() implies (#[trigger] after[i]).chat.id
            != (#[trigger] after[j]).chat.id by {
            assert(after[i] == rows[i]);
            if j < rows.len() {
                assert(after[j] == rows[j]);
            }
        }
    }
}

/// The rows of chats with one row put in: in place of the row of its chat,
/// or at the end where its chat has no row.
pub open spec fn put_chat(rows: Seq<ChatRecordView>, row: ChatRecordView) -> Seq<ChatRecordView> {
    let at = chat_row(rows, row.chat.id);
    if at < rows.len() {
        rows.update(at, row)
    } else {
        rows.push(row)
    }
}

/// The messages with one message put in: in place of the message with its
/// id, or at the end where no message has its id.
pub open spec fn put_message(rows: Seq<MessageView>, msg: MessageView) -> Seq<MessageView> {
    let at = message_position(rows, msg.id);
    if at < rows.len() {
        rows.update(at, msg)
    } else {
        rows.push(msg)
    }
}

/// The rows of sessions with one row put in: in place of the row of its
/// provider, or at the end where its provider has no row.
pub open spec fn put_session(rows: Seq<SessionRecordView>, row: SessionRecordView) -> Seq<
    SessionRecordView,
> {
    let at = session_row(rows, row.provider);
    if at < rows.len() {
        rows.update(at, row)
    } else {
        rows.push(row)
    }
}

/// The rows of sessions without the row of a provider.
pub open spec fn drop_session(rows: Seq<SessionRecordView>, provider: Seq<char>) -> Seq<
    SessionRecordView,
> {
    let at = session_row(rows, provider);
    if at < rows.len() {
        rows.remove(at)
    } else {
        rows
    }
}

impl DbView {
    /// The store after a copy of it followed one write.
    pub open spec fn after_write(self, write: RowWriteView) -> DbView {
        match write {
            RowWriteView::Chat(row) => DbView { chats: put_chat(self.chats, row), ..self },
            RowWriteView::Message(msg) => DbView { messages: put_message(self.messages, msg), ..self },
            RowWriteView::Session(row) => DbView { sessions: put_session(self.sessions, row), ..self },
            RowWriteView::SessionGone(provider) => DbView {
                sessions: drop_session(self.sessions, provider),
                ..self
            },
        }
    }

    /// The store after a copy of it followed a write, if there was one.
    pub open spec fn after_optional_write(self, write: Option<RowWriteView>) -> DbView {
        match write {
            Some(w) => self.after_write(w),
            None => self,
        }
    }

    /// The store after a copy of it followed a sequence of writes, in order.
    pub open spec fn after_writes(self, writes: Seq<RowWriteView>) -> DbView
        decreases writes.len(),
    {
        if writes.len() == 0 {
            self
        } else {
            self.after_writes(writes.drop_last()).after_write(writes.last())
        }
    }
}

/// Following two runs of writes one after the other is following their
/// concatenation.
pub proof fn lemma_after_writes_concat(db: DbView, first: Seq<RowWriteView>, second: Seq<RowWriteView>)
    ensures
        db.after_writes(first + second) == db.after_writes(first).after_writes(second),
    decreases second.len(),
{
    if second.len() == 0 {
        assert(first + second =~= first);
    } else {
        lemma_after_writes_concat(db, first, second.drop_last());
        assert((first + second).drop_last() =~= first + second.drop_last());
        assert((first + second).last() == second.last());
    }
}

/// The store of chats, messages and provider sessions.
pub struct Database {
    pub(crate) chats: Vec<ChatRecord>,
    pub(crate) messages: Vec<UnifiedMessage>,
    pub(crate) sessions: Vec<SessionRecord>,
}

impl View for Database {
    type V = DbView;

    open(crate) spec fn view(&self) -> DbView {
        DbView {
            chats: self.chats.deep_view(),
            messages: self.messages.deep_view(),
            sessions: self.sessions.deep_view(),
        }
    }
}

impl DbView {
    /// The store with no rows.
    pub open spec fn empty() -> DbView {
        DbView { chats: Seq::empty(), messages: Seq::empty(), sessions: Seq::empty() }
    }
}

impl Database {
    /// A store with no rows.
    pub fn open_in_memory() -> (db: Self)
        ensures
            db@.chats.len() == 0,
            db@.messages.len() == 0,
            db@.sessions.len() == 0,
            db@ == DbView::empty(),
            db@.keys_unique(),
    {
        let db = Database { chats: Vec::new(), messages: Vec::new(), sessions: Vec::new() };
        assert(db@.chats =~= Seq::empty());
        assert(db@.messages =~= Seq::empty());
        assert(db@.sessions =~= Seq::empty());
        db
    }

    /// Follows one write: the store takes the row as it is, or drops the row
    /// of the key.
    pub fn apply_write(&mut self, write: RowWrite)
        ensures
            final(self)@ == old(self)@.after_write(write@),
            old(self)@.keys_unique() ==> final(self)@.keys_unique(),
    {
        match write {
            RowWrite::Chat(row) => {
                self.put_chat_record(row);
            },
            RowWrite::Message(msg) => {
                let _ = self.insert_message(&msg);
            },
            RowWrite::Session(row) => {
                let _ = self.save_session(row.provider.as_str(), row.data.as_str(), row.updated_at);
            },
            RowWrite::SessionGone(provider) => {
                let _ = self.delete_session(provider.as_str());
            },
        }
    }

    /// The store that a run of writes leaves, starting from no rows. This is
    /// how a store comes back from its durable copy.
    pub fn restore(writes: Vec<RowWrite>) -> (db: Self)
        ensures
            db@ == DbView::empty().after_writes(writes.deep_view()),
            db@.keys_unique(),
    {
        let mut db = Database::open_in_memory();
        let ghost all = writes.deep_view();
        for write in it: writes
            invariant
                it.seq().len() == all.len(),
                forall|k: int| 0 <= k < all.len() ==> (#[trigger] it.seq()[k])@ == all[k],
                db@ == DbView::empty().after_writes(all.take(it.index() as int)),
                db@.keys_unique(),
        {
            proof {
                let next = all.take(it.index() + 1);
                assert(next.drop_last() =~= all.take(it.index() as int));
                assert(next.last() == write@);
            }
            db.apply_write(write);
        }
        proof {
            assert(all.take(all.len() as int) =~= all);
        }
        db
    }
}

} // verus!
