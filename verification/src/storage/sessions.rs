//! The relation of sessions: per provider, the opaque state that lets it
//! resume. The store keeps it and never looks inside.

use vstd::prelude::*;
use vstd::string::StringExecFns;

use crate::messaging::types::Timestamp;
use crate::storage::db::{
    drop_session, lemma_session_row, lemma_session_row_is, providers_unique, put_session,
    session_row, write_view, Database, RowWrite, RowWriteView, SessionRecord, SessionRecordView,
};
use crate::text::same_text;

verus! {

/// The session state saved for a provider, if any.
pub open spec fn session_of(rows: Seq<SessionRecordView>, provider: Seq<char>) -> Option<Seq<char>> {
    let at = session_row(rows, provider);
    if at < rows.len() {
        Some(rows[at].data)
    } else {
        None
    }
}

/// A session that was saved is the one read back for its provider.
pub proof fn lemma_saved_session_is_read(rows: Seq<SessionRecordView>, row: SessionRecordView)
    ensures
        session_of(put_session(rows, row), row.provider) == Some(row.data),
        providers_unique(rows) ==> providers_unique(put_session(rows, row)),
{
    lemma_session_row(rows, row.provider);
    let at = session_row(rows, row.provider);
    let after = put_session(rows, row);
    assert forall|j: int| 0 <= j < at implies (#[trigger] after[j]).provider != row.provider by {
        assert(after[j] == rows[j]);
    }
    lemma_session_row_is(after, row.provider, at);
    if providers_unique(rows) {
        assert forall|i: int, j: int| 0 <= i < j < after.len() implies (#[trigger] after[i]).provider
            != (#[trigger] after[j]).provider by {
            if i < rows.len() {
                assert(after[i].provider == rows[i].provider);
            }
            if j < rows.len() {
                assert(after[j].provider == rows[j].provider);
            }
        }
    }
}

/// After the session of a provider was deleted, none is read back for it.
pub proof fn lemma_deleted_session_is_gone(rows: Seq<SessionRecordView>, provider: Seq<char>)
    requires
        providers_unique(rows),
    ensures
        session_of(drop_session(rows, provider), provider) is None,
        providers_unique(drop_session(rows, provider)),
{
    lemma_session_row(rows, provider);
    let at = session_row(rows, provider);
    let after = drop_session(rows, provider);
    assert forall|j: int| 0 <= j < after.len() implies (#[trigger] after[j]).provider
        != provider by {
        if at < rows.len() {
            if j < at {
                assert(after[j] == rows[j]);
            } else {
                assert(after[j] == rows[j + 1]);
                assert(rows[at].provider != rows[j + 1].provider);
            }
        } else {
            assert(after[j] == rows[j]);
        }
    }
    lemma_session_row_is(after, provider, after.len() as int);
    assert forall|i: int, j: int| 0 <= i < j < after.len() implies (#[trigger] after[i]).provider
        != (#[trigger] after[j]).provider by {
        if at < rows.len() {
            let a = if i < at { i } else { i + 1 };
            let b = if j < at { j } else { j + 1 };
            assert(after[i] == rows[a]);
            assert(after[j] == rows[b]);
        }
    }
}

impl Database {
    /// Index of the row of the given provider; the number of rows where it
    /// has none.
    pub(crate) fn find_session_row(&self, provider: &str) -> (at: usize)
        ensures
            at == session_row(self@.sessions, provider@),
            at <= self.sessions.len(),
    {
        let mut i: usize = 0;
        while i < self.sessions.len()
            invariant
                0 <= i <= self.sessions.len(),
                forall|j: int|
                    0 <= j < i ==> (#[trigger] self.sessions.deep_view()[j]).provider != provider@,
            decreases self.sessions.len() - i,
        {
            if same_text(self.sessions[i].provider.as_str(), provider) {
                proof {
                    lemma_session_row_is(self.sessions.deep_view(), provider@, i as int);
                }
                return i;
            }
            i += 1;
        }
        proof {
            lemma_session_row_is(self.sessions.deep_view(), provider@, i as int);
        }
        i
    }

    /// Saves the session state of a provider, in place of what was saved
    /// for it before.
    pub fn save_session(&mut self, provider: &str, data: &str, now: Timestamp) -> (written: RowWrite)
        ensures
            final(self)@.sessions == put_session(
                old(self)@.sessions,
                SessionRecordView { provider: provider@, data: data@, updated_at: now },
            ),
            final(self)@.chats == old(self)@.chats,
            final(self)@.messages == old(self)@.messages,
            old(self)@.keys_unique() ==> final(self)@.keys_unique(),
            written@ == RowWriteView::Session(
                SessionRecordView { provider: provider@, data: data@, updated_at: now },
            ),
            final(self)@ == old(self)@.after_write(written@),
    {
        let row = SessionRecord {
            provider: String::from_str(provider),
            data: String::from_str(data),
            updated_at: now,
        };
        proof {
            lemma_session_row(self@.sessions, provider@);
            lemma_saved_session_is_read(self@.sessions, row@);
        }
        let written = RowWrite::Session(row.clone());
        let at = self.find_session_row(provider);
        if at < self.sessions.len() {
            let ghost after = self.sessions.deep_view().update(at as int, row@);
            self.sessions.set(at, row);
            assert(self@.sessions =~= after);
        } else {
            let ghost after = self.sessions.deep_view().push(row@);
            self.sessions.push(row);
            assert(self@.sessions =~= after);
        }
        written
    }

    /// The session state saved for a provider, if any.
    pub fn get_session(&self, provider: &str) -> (data: Option<String>)
        ensures
            crate::messaging::types::opt_chars(data) == session_of(self@.sessions, provider@),
    {
        let at = self.find_session_row(provider);
        if at < self.sessions.len() {
            Some(self.sessions[at].data.clone())
        } else {
            None
        }
    }

    /// Forgets the session state of a provider.
    pub fn delete_session(&mut self, provider: &str) -> (written: Option<RowWrite>)
        ensures
            final(self)@.sessions == drop_session(old(self)@.sessions, provider@),
            final(self)@.chats == old(self)@.chats,
            final(self)@.messages == old(self)@.messages,
            old(self)@.keys_unique() ==> final(self)@.keys_unique(),
            write_view(written) == (if session_row(old(self)@.sessions, provider@) < old(
                self,
            )@.sessions.len() {
                Some(RowWriteView::SessionGone(provider@))
            } else {
                None
            }),
            final(self)@ == old(self)@.after_optional_write(write_view(written)),
    {
        proof {
            lemma_session_row(self@.sessions, provider@);
            if old(self)@.keys_unique() {
                lemma_deleted_session_is_gone(self@.sessions, provider@);
            }
        }
        let at = self.find_session_row(provider);
        if at < self.sessions.len() {
            let ghost after = self.sessions.deep_view().remove(at as int);
            self.sessions.remove(at);
            assert(self@.sessions =~= after);
            Some(RowWrite::SessionGone(String::from_str(provider)))
        } else {
            None
        }
    }
}

} // verus!
