//! The reconciler: one step per tick drains the router's queue, up to a cap,
//! merges what came into the state the screen is drawn from, and writes the
//! same to the store.

use vstd::prelude::*;

use crate::config::settings::AppConfig;
use crate::messaging::provider::{
    is_optimistic_echo, EventView, MessagingProvider, ProviderError, ProviderEvent,
};
use crate::messaging::router::{platform_position, start_failures, MessageRouter};
use crate::messaging::types::{
    AuthStatus, ChatView, ContentView, MessageContent, MessageStatus, MessageView, Platform,
    Timestamp, UnifiedChat, UnifiedMessage,
};
use crate::storage::chats::{chats_of, recent_first, with_display_name};
use crate::storage::messages::messages_for_chat;
use crate::tui::app_state::{
    applied_items, chars_before, initial_state, on_char_boundary, outcome_of, settings_for,
    ActivePanel, InputMode, ListSelection, SettingsStateView, SettingsItemView, SCROLL_STEP,
};
use crate::tui::keybindings::Action;
use crate::reconcile::{
    bumped, chat_position, counts_as_unread, find_chat, first_reference, lemma_chat_position,
    merge_batch, merge_chats, note_message, note_message_spec, set_status, with_status,
};
use crate::storage::chats::{upserted, upserted_all, with_last_message, with_unread_count};
use crate::storage::db::{put_message, ChatRecordView, Database, DbView, RowWrite};
use crate::tui::app_state::{AppState, AppStateView};

verus! {

/// How many events one tick handles at most. What is queued beyond that
/// waits for the next tick.
pub const MAX_EVENTS_PER_TICK: usize = 50;

/// The state after a new message: its chat has the message's preview and,
/// for an incoming message of a chat that is not on screen, an unread count
/// one higher; a message of the chat on screen is added to the messages
/// shown, which are shown from their end again.
pub open spec fn state_after_message(s: AppStateView, msg: MessageView) -> AppStateView {
    let on_screen = s.shows(msg.chat_id);
    AppStateView {
        chats: note_message_spec(s.chats, msg, on_screen),
        messages: if on_screen {
            s.messages.push(msg)
        } else {
            s.messages
        },
        scroll_offset: if on_screen {
            0
        } else {
            s.scroll_offset
        },
        ..s
    }
}

/// The state after the connection of a backend changed: only the flags of
/// that backend change, and no chat or message.
pub open spec fn state_after_auth(
    s: AppStateView,
    platform: Platform,
    status: AuthStatus,
) -> AppStateView {
    if platform == Platform::WhatsApp {
        match status {
            AuthStatus::Authenticated => AppStateView {
                whatsapp_connected: true,
                qr_code: None,
                ..s
            },
            AuthStatus::NotAuthenticated | AuthStatus::Failed => AppStateView {
                whatsapp_connected: false,
                ..s
            },
            AuthStatus::Authenticating => s,
        }
    } else {
        s
    }
}

/// The state after one event.
pub open spec fn reconciled(s: AppStateView, event: EventView) -> AppStateView {
    match event {
        EventView::NewMessage(msg) => state_after_message(s, msg),
        EventView::ChatsUpdated(batch) => AppStateView { chats: merge_batch(s.chats, batch), ..s },
        EventView::MessageStatusUpdate { message_id, status } => AppStateView {
            messages: with_status(s.messages, message_id, status),
            ..s
        },
        EventView::AuthStatusChanged(platform, status) => state_after_auth(s, platform, status),
        EventView::AuthQrCode(code) => AppStateView { qr_code: Some(code), ..s },
    }
}

/// The relation of chats after a new message. For a chat that the state
/// knows, the row gets the message's preview and, where the message counts
/// as unread, the count that the state now shows. A chat that the message
/// brings into being is written as a whole.
pub open spec fn chat_rows_after_message(
    rows: Seq<ChatRecordView>,
    s: AppStateView,
    msg: MessageView,
    now: Timestamp,
) -> Seq<ChatRecordView> {
    let on_screen = s.shows(msg.chat_id);
    let at = chat_position(s.chats, msg.chat_id);
    if at < s.chats.len() {
        let previewed = with_last_message(rows, msg.chat_id, msg.content.preview(), now);
        if counts_as_unread(msg, on_screen) {
            with_unread_count(previewed, msg.chat_id, bumped(s.chats[at].unread_count), now)
        } else {
            previewed
        }
    } else {
        upserted(rows, first_reference(msg, on_screen), now)
    }
}

/// The store after one event that met the state `s`.
pub open spec fn persisted(
    db: DbView,
    s: AppStateView,
    event: EventView,
    now: Timestamp,
) -> DbView {
    match event {
        EventView::NewMessage(msg) => DbView {
            messages: put_message(db.messages, msg),
            chats: chat_rows_after_message(db.chats, s, msg, now),
            ..db
        },
        EventView::ChatsUpdated(batch) => DbView { chats: upserted_all(db.chats, batch, now), ..db },
        EventView::MessageStatusUpdate { message_id, status } => DbView {
            messages: with_status(db.messages, message_id, status),
            ..db
        },
        EventView::AuthStatusChanged(platform, status) => db,
        EventView::AuthQrCode(code) => db,
    }
}

/// The state and the store, side by side.
pub struct Mirror {
    pub state: AppStateView,
    pub db: DbView,
}

/// State and store after one event.
pub open spec fn stepped(m: Mirror, event: EventView, now: Timestamp) -> Mirror {
    Mirror { state: reconciled(m.state, event), db: persisted(m.db, m.state, event, now) }
}

/// State and store after a run of events, in order.
pub open spec fn stepped_all(m: Mirror, events: Seq<EventView>, now: Timestamp) -> Mirror
    decreases events.len(),
{
    if events.len() == 0 {
        m
    } else {
        stepped(stepped_all(m, events.drop_last(), now), events.last(), now)
    }
}

/// Adds a write, if there was one, to the writes of a step.
fn note_write(writes: &mut Vec<RowWrite>, write: Option<RowWrite>, Ghost(start): Ghost<DbView>)
    ensures
        start.after_writes(final(writes).deep_view()) == start.after_writes(
            old(writes).deep_view(),
        ).after_optional_write(crate::storage::db::write_view(write)),
{
    match write {
        Some(w) => {
            let ghost before = writes.deep_view();
            let ghost wv = w@;
            writes.push(w);
            assert(writes.deep_view() =~= before.push(wv));
            assert(writes.deep_view().drop_last() =~= before);
        },
        None => {},
    }
}

/// Handles a new message.
fn apply_new_message(
    state: &mut AppState,
    db: &mut Database,
    msg: UnifiedMessage,
    now: Timestamp,
) -> (writes: Vec<RowWrite>)
    ensures
        final(state)@ == state_after_message(old(state)@, msg@),
        final(db)@ == persisted(old(db)@, old(state)@, EventView::NewMessage(msg@), now),
        final(db)@ == old(db)@.after_writes(writes.deep_view()),
        old(db)@.keys_unique() ==> final(db)@.keys_unique(),
{
    let ghost start = db@;
    let mut writes: Vec<RowWrite> = Vec::new();
    assert(writes.deep_view() =~= Seq::empty());
    let on_screen = state.shows(msg.chat_id.as_str());
    let known = find_chat(&state.chats, msg.chat_id.as_str()) < state.chats.len();
    let unread = !msg.is_outgoing && !on_screen;

    let written = db.insert_message(&msg);
    note_write(&mut writes, Some(written), Ghost(start));

    let at = note_message(&mut state.chats, &msg, on_screen);
    proof {
        lemma_chat_position(old(state)@.chats, msg@.chat_id);
    }
    if known {
        assert(state.chats.deep_view()[at as int] == crate::reconcile::noted_chat(
            old(state)@.chats[at as int],
            msg@,
            on_screen,
        ));
        let written = db.update_last_message(msg.chat_id.as_str(), msg.content.as_text(), now);
        note_write(&mut writes, written, Ghost(start));
        if unread {
            let written = db.update_unread_count(
                msg.chat_id.as_str(),
                state.chats[at].unread_count,
                now,
            );
            note_write(&mut writes, written, Ghost(start));
        }
    } else {
        assert(state.chats.deep_view()[at as int] == first_reference(msg@, on_screen));
        let written = db.upsert_chat(&state.chats[at], now);
        note_write(&mut writes, Some(written), Ghost(start));
    }
    if on_screen {
        let ghost before = state.messages.deep_view();
        state.messages.push(msg);
        assert(state.messages.deep_view() =~= before.push(msg@));
        state.scroll_offset = 0;
    }
    writes
}

/// Handles a batch of refreshed chats: every chat is written to the store
/// first, then the batch is merged into the state.
fn apply_chats_updated(
    state: &mut AppState,
    db: &mut Database,
    batch: Vec<UnifiedChat>,
    now: Timestamp,
) -> (writes: Vec<RowWrite>)
    ensures
        final(state)@ == (AppStateView {
            chats: merge_batch(old(state)@.chats, batch.deep_view()),
            ..old(state)@
        }),
        final(db)@ == (DbView {
            chats: upserted_all(old(db)@.chats, batch.deep_view(), now),
            ..old(db)@
        }),
        final(db)@ == old(db)@.after_writes(writes.deep_view()),
        old(db)@.keys_unique() ==> final(db)@.keys_unique(),
{
    let ghost start = db@;
    let mut writes: Vec<RowWrite> = Vec::new();
    assert(writes.deep_view() =~= Seq::empty());
    let mut i: usize = 0;
    while i < batch.len()
        invariant
            0 <= i <= batch.len(),
            db@ == (DbView {
                chats: upserted_all(start.chats, batch.deep_view().take(i as int), now),
                ..start
            }),
            db@ == start.after_writes(writes.deep_view()),
            start.keys_unique() ==> db@.keys_unique(),
        decreases batch.len() - i,
    {
        proof {
            let next = batch.deep_view().take(i + 1);
            assert(next.drop_last() =~= batch.deep_view().take(i as int));
            assert(next.last() == batch[i as int]@);
        }
        let written = db.upsert_chat(&batch[i], now);
        note_write(&mut writes, Some(written), Ghost(start));
        i += 1;
    }
    proof {
        assert(batch.deep_view().take(batch.len() as int) =~= batch.deep_view());
    }
    merge_chats(&mut state.chats, &batch);
    writes
}

/// Handles the new status of a message.
fn apply_status_update(
    state: &mut AppState,
    db: &mut Database,
    message_id: String,
    status: MessageStatus,
) -> (writes: Vec<RowWrite>)
    ensures
        final(state)@ == (AppStateView {
            messages: with_status(old(state)@.messages, message_id@, status),
            ..old(state)@
        }),
        final(db)@ == (DbView {
            messages: with_status(old(db)@.messages, message_id@, status),
            ..old(db)@
        }),
        final(db)@ == old(db)@.after_writes(writes.deep_view()),
        old(db)@.keys_unique() ==> final(db)@.keys_unique(),
{
    let ghost start = db@;
    let mut writes: Vec<RowWrite> = Vec::new();
    assert(writes.deep_view() =~= Seq::empty());
    let written = db.update_message_status(message_id.as_str(), status);
    note_write(&mut writes, written, Ghost(start));
    set_status(&mut state.messages, message_id.as_str(), status);
    writes
}

/// Handles a change of a backend's connection.
fn apply_auth_status(state: &mut AppState, platform: Platform, status: AuthStatus)
    ensures
        final(state)@ == state_after_auth(old(state)@, platform, status),
{
    if platform == Platform::WhatsApp {
        match status {
            AuthStatus::Authenticated => {
                state.whatsapp_connected = true;
                state.qr_code = None;
            },
            AuthStatus::NotAuthenticated | AuthStatus::Failed => {
                state.whatsapp_connected = false;
            },
            AuthStatus::Authenticating => {},
        }
    }
}

/// Merges one event into the state and writes it to the store. The result is
/// the rows written, in the order written: a copy of the store that follows
/// them stays equal to the store.
pub fn apply_event(
    state: &mut AppState,
    db: &mut Database,
    event: ProviderEvent,
    now: Timestamp,
) -> (writes: Vec<RowWrite>)
    ensures
        final(state)@ == reconciled(old(state)@, event@),
        final(db)@ == persisted(old(db)@, old(state)@, event@, now),
        final(db)@ == old(db)@.after_writes(writes.deep_view()),
        old(db)@.keys_unique() ==> final(db)@.keys_unique(),
{
    match event {
        ProviderEvent::NewMessage(msg) => apply_new_message(state, db, msg, now),
        ProviderEvent::ChatsUpdated(batch) => apply_chats_updated(state, db, batch, now),
        ProviderEvent::MessageStatusUpdate { message_id, status } => apply_status_update(
            state,
            db,
            message_id,
            status,
        ),
        ProviderEvent::AuthStatusChanged(platform, status) => {
            apply_auth_status(state, platform, status);
            let writes: Vec<RowWrite> = Vec::new();
            assert(writes.deep_view() =~= Seq::empty());
            writes
        },
        ProviderEvent::AuthQrCode(code) => {
            state.qr_code = Some(code);
            let writes: Vec<RowWrite> = Vec::new();
            assert(writes.deep_view() =~= Seq::empty());
            writes
        },
    }
}

/// Merges a run of events into the state and writes them to the store, one
/// after the other. The result is the rows written, in the order written.
pub fn apply_events(
    state: &mut AppState,
    db: &mut Database,
    events: Vec<ProviderEvent>,
    now: Timestamp,
) -> (writes: Vec<RowWrite>)
    ensures
        (Mirror { state: final(state)@, db: final(db)@ }) == stepped_all(
            Mirror { state: old(state)@, db: old(db)@ },
            events.deep_view(),
            now,
        ),
        final(db)@ == old(db)@.after_writes(writes.deep_view()),
        old(db)@.keys_unique() ==> final(db)@.keys_unique(),
{
    let ghost start = Mirror { state: state@, db: db@ };
    let ghost all = events.deep_view();
    let mut writes: Vec<RowWrite> = Vec::new();
    assert(writes.deep_view() =~= Seq::empty());
    for event in it: events
        invariant
            it.seq().len() == all.len(),
            forall|k: int| 0 <= k < all.len() ==> (#[trigger] it.seq()[k])@ == all[k],
            (Mirror { state: state@, db: db@ }) == stepped_all(start, all.take(it.index() as int), now),
            db@ == start.db.after_writes(writes.deep_view()),
            start.db.keys_unique() ==> db@.keys_unique(),
    {
        proof {
            let next = all.take(it.index() + 1);
            assert(next.drop_last() =~= all.take(it.index() as int));
            assert(next.last() == event@);
        }
        let ghost before = writes.deep_view();
        let mut step = apply_event(state, db, event, now);
        let ghost added = step.deep_view();
        writes.append(&mut step);
        proof {
            assert(writes.deep_view() =~= before + added);
            crate::storage::db::lemma_after_writes_concat(start.db, before, added);
        }
    }
    proof {
        assert(all.take(all.len() as int) =~= all);
    }
    writes
}

/// Handling the same batch of refreshed chats twice, at the same time,
/// leaves state and store exactly as handling it once does: every field of
/// every chat, and no chat more.
pub proof fn lemma_chats_updated_idempotent(m: Mirror, batch: Seq<ChatView>, now: Timestamp)
    ensures
        stepped(stepped(m, EventView::ChatsUpdated(batch), now), EventView::ChatsUpdated(batch), now)
            == stepped(m, EventView::ChatsUpdated(batch), now),
{
    crate::reconcile_laws::lemma_merge_batch_idempotent(m.state.chats, batch);
    crate::storage::laws::lemma_upserted_all_idempotent(m.db.chats, batch, now);
}

/// With an incoming message of a known chat, the unread count of that chat
/// goes up by exactly one while the chat is not on screen, and no other
/// chat's count changes. While the chat is on screen its count stays, the
/// message is added behind the messages shown, and these are shown from their
/// end. The count of a chat that stands at the top of its range cannot go up.
pub proof fn lemma_unread_accounting(s: AppStateView, msg: MessageView)
    requires
        !msg.is_outgoing,
        chat_position(s.chats, msg.chat_id) < s.chats.len(),
        s.chats[chat_position(s.chats, msg.chat_id)].unread_count < u32::MAX,
    ensures
        reconciled(s, EventView::NewMessage(msg)).chats.len() == s.chats.len(),
        forall|i: int|
            0 <= i < s.chats.len() && i != chat_position(s.chats, msg.chat_id) ==> (
            #[trigger] reconciled(s, EventView::NewMessage(msg)).chats[i]) == s.chats[i],
        !s.shows(msg.chat_id) ==> {
            &&& reconciled(s, EventView::NewMessage(msg)).chats[chat_position(
                s.chats,
                msg.chat_id,
            )].unread_count == s.chats[chat_position(s.chats, msg.chat_id)].unread_count + 1
            &&& reconciled(s, EventView::NewMessage(msg)).messages == s.messages
            &&& reconciled(s, EventView::NewMessage(msg)).scroll_offset == s.scroll_offset
        },
        s.shows(msg.chat_id) ==> {
            &&& reconciled(s, EventView::NewMessage(msg)).chats[chat_position(
                s.chats,
                msg.chat_id,
            )].unread_count == s.chats[chat_position(s.chats, msg.chat_id)].unread_count
            &&& reconciled(s, EventView::NewMessage(msg)).messages == s.messages.push(msg)
            &&& reconciled(s, EventView::NewMessage(msg)).scroll_offset == 0
        },
{
    lemma_chat_position(s.chats, msg.chat_id);
}

/// No event lowers an unread count, and only an incoming message of a chat
/// that is not on screen raises one: that of its own chat.
pub proof fn lemma_unread_counts_only_grow(s: AppStateView, event: EventView, p: int)
    requires
        0 <= p < s.chats.len(),
    ensures
        reconciled(s, event).chats.len() >= s.chats.len(),
        reconciled(s, event).chats[p].unread_count >= s.chats[p].unread_count,
        reconciled(s, event).chats[p].unread_count > s.chats[p].unread_count ==> {
            &&& event matches EventView::NewMessage(msg)
            &&& !msg.is_outgoing
            &&& !s.shows(msg.chat_id)
            &&& p == chat_position(s.chats, msg.chat_id)
        },
{
    match event {
        EventView::NewMessage(msg) => {
            lemma_chat_position(s.chats, msg.chat_id);
        },
        EventView::ChatsUpdated(batch) => {
            crate::reconcile_laws::lemma_merge_batch_keeps_unread_counts(s.chats, batch);
        },
        _ => {},
    }
}

/// The state after the selected chat was brought on screen: its messages are
/// loaded from the store and shown from their end, and the chat counts as
/// read. Without a selected chat nothing changes.
pub open spec fn state_after_viewing(s: AppStateView, db: DbView) -> AppStateView {
    match s.selected_chat_id() {
        Some(id) => {
            let at = s.chat_list_state.selected->0 as int;
            AppStateView {
                messages: messages_for_chat(db.messages, id),
                scroll_offset: 0,
                chats: s.chats.update(at, ChatView { unread_count: 0, ..s.chats[at] }),
                ..s
            }
        },
        None => s,
    }
}

/// The store after the selected chat was brought on screen: where the chat
/// had unread messages, its row counts none.
pub open spec fn db_after_viewing(db: DbView, s: AppStateView, now: Timestamp) -> DbView {
    match s.selected_chat_id() {
        Some(id) => if s.chats[s.chat_list_state.selected->0 as int].unread_count > 0 {
            DbView { chats: with_unread_count(db.chats, id, 0, now), ..db }
        } else {
            db
        },
        None => db,
    }
}

/// The state after the user named the selected chat with what the input line
/// holds. An empty name, or none selected, names nothing. Either way the
/// input line is empty afterwards and the keyboard is back in normal mode.
pub open spec fn state_after_rename(s: AppStateView) -> AppStateView {
    let cleared = AppStateView {
        input_buffer: Seq::empty(),
        cursor_position: 0,
        input_mode: InputMode::Normal,
        ..s
    };
    match s.selected_chat_id() {
        Some(id) => if s.input_buffer.len() > 0 {
            let at = s.chat_list_state.selected->0 as int;
            AppStateView {
                chats: s.chats.update(
                    at,
                    ChatView { display_name: Some(s.input_buffer), ..s.chats[at] },
                ),
                ..cleared
            }
        } else {
            cleared
        },
        None => cleared,
    }
}

/// The store after the user named the selected chat.
pub open spec fn db_after_rename(db: DbView, s: AppStateView) -> DbView {
    match s.selected_chat_id() {
        Some(id) => if s.input_buffer.len() > 0 {
            DbView { chats: with_display_name(db.chats, id, s.input_buffer), ..db }
        } else {
            db
        },
        None => db,
    }
}

/// The settings dialog after one of its own actions; a closed dialog stays
/// closed.
pub open spec fn settings_after(settings: Option<SettingsStateView>, action: Action) -> Option<
    SettingsStateView,
> {
    match settings {
        Some(d) => match action {
            Action::SettingsNext => Some(
                SettingsStateView {
                    selected: if d.selected + 1 < d.items.len() {
                        (d.selected + 1) as usize
                    } else {
                        d.selected
                    },
                    ..d
                },
            ),
            Action::SettingsPrev => Some(
                SettingsStateView {
                    selected: if d.selected > 0 {
                        (d.selected - 1) as usize
                    } else {
                        d.selected
                    },
                    ..d
                },
            ),
            Action::SettingsToggle => if d.selected < d.items.len() {
                Some(
                    SettingsStateView {
                        items: d.items.update(
                            d.selected as int,
                            SettingsItemView {
                                value: d.items[d.selected as int].value.toggled(),
                                ..d.items[d.selected as int]
                            },
                        ),
                        dirty: true,
                        ..d
                    },
                )
            } else {
                settings
            },
            _ => settings,
        },
        None => None,
    }
}

/// The state after an action of the user. `db` is the store and `config`
/// the configuration that the action met.
pub open spec fn state_after_action(
    s: AppStateView,
    db: DbView,
    config: AppConfig,
    action: Action,
) -> AppStateView {
    match action {
        Action::Quit => AppStateView { should_quit: true, ..s },
        Action::SwitchPanel => AppStateView {
            active_panel: match s.active_panel {
                ActivePanel::ChatList => ActivePanel::MessageView,
                ActivePanel::MessageView => ActivePanel::ChatList,
            },
            ..s
        },
        Action::NextChat => state_after_viewing(state_after_next_chat(s), db),
        Action::PrevChat => state_after_viewing(state_after_prev_chat(s), db),
        Action::EnterEditing => AppStateView {
            input_mode: InputMode::Editing,
            active_panel: ActivePanel::MessageView,
            ..s
        },
        Action::ExitEditing => AppStateView { input_mode: InputMode::Normal, ..s },
        Action::SubmitMessage => AppStateView {
            input_buffer: Seq::empty(),
            cursor_position: 0,
            ..s
        },
        Action::DeleteChar => if on_char_boundary(s.input_buffer, s.cursor_position as int)
            && s.cursor_position > 0 {
            let at = chars_before(s.input_buffer, s.cursor_position as int) - 1;
            AppStateView {
                input_buffer: s.input_buffer.remove(at),
                cursor_position: vstd::utf8::encode_utf8(s.input_buffer.take(at)).len() as usize,
                ..s
            }
        } else {
            s
        },
        Action::InsertChar(c) => if on_char_boundary(s.input_buffer, s.cursor_position as int) {
            let at = chars_before(s.input_buffer, s.cursor_position as int);
            AppStateView {
                input_buffer: s.input_buffer.insert(at, c),
                cursor_position: vstd::utf8::encode_utf8(s.input_buffer.take(at).push(c)).len() as usize,
                ..s
            }
        } else {
            s
        },
        Action::ScrollUp => AppStateView {
            scroll_offset: if s.scroll_offset + SCROLL_STEP <= u16::MAX {
                (s.scroll_offset + SCROLL_STEP) as u16
            } else {
                u16::MAX
            },
            ..s
        },
        Action::ScrollDown => AppStateView {
            scroll_offset: if s.scroll_offset >= SCROLL_STEP {
                (s.scroll_offset - SCROLL_STEP) as u16
            } else {
                0
            },
            ..s
        },
        Action::OpenSettings => AppStateView {
            settings_state: Some(
                settings_for(
                    config.mock_provider.enabled,
                    config.whatsapp.enabled,
                    config.general.log_level@,
                ),
            ),
            input_mode: InputMode::Settings,
            ..s
        },
        Action::SettingsNext | Action::SettingsPrev | Action::SettingsToggle => AppStateView {
            settings_state: settings_after(s.settings_state, action),
            ..s
        },
        Action::SettingsSave | Action::SettingsClose => AppStateView {
            settings_state: None,
            input_mode: InputMode::Normal,
            ..s
        },
        Action::RenameChat => if s.selected_chat_id() is Some {
            AppStateView {
                input_mode: InputMode::Renaming,
                input_buffer: Seq::empty(),
                cursor_position: 0,
                ..s
            }
        } else {
            s
        },
        Action::ConfirmRename => state_after_rename(s),
        Action::CancelRename => AppStateView {
            input_buffer: Seq::empty(),
            cursor_position: 0,
            input_mode: InputMode::Normal,
            ..s
        },
        Action::Nothing => s,
    }
}

/// The state with the chat below the selected one selected.
pub open spec fn state_after_next_chat(s: AppStateView) -> AppStateView {
    if s.chats.len() == 0 {
        s
    } else {
        AppStateView {
            chat_list_state: ListSelection {
                selected: Some(
                    match s.chat_list_state.selected {
                        Some(i) => if i >= s.chats.len() - 1 {
                            0
                        } else {
                            (i + 1) as usize
                        },
                        None => 0,
                    },
                ),
                offset: s.chat_list_state.offset,
            },
            scroll_offset: 0,
            ..s
        }
    }
}

/// The state with the chat above the selected one selected.
pub open spec fn state_after_prev_chat(s: AppStateView) -> AppStateView {
    if s.chats.len() == 0 {
        s
    } else {
        AppStateView {
            chat_list_state: ListSelection {
                selected: Some(
                    match s.chat_list_state.selected {
                        Some(i) => if i == 0 {
                            (s.chats.len() - 1) as usize
                        } else {
                            (i - 1) as usize
                        },
                        None => 0,
                    },
                ),
                offset: s.chat_list_state.offset,
            },
            scroll_offset: 0,
            ..s
        }
    }
}

/// No action of the user adds or removes a chat, and only bringing a chat on
/// screen changes an unread count: that of the chat brought on screen, which
/// then counts as read.
pub proof fn lemma_only_viewing_resets_unread(
    s: AppStateView,
    db: DbView,
    config: AppConfig,
    action: Action,
    p: int,
)
    requires
        0 <= p < s.chats.len(),
    ensures
        state_after_action(s, db, config, action).chats.len() == s.chats.len(),
        state_after_action(s, db, config, action).chats[p].id == s.chats[p].id,
        state_after_action(s, db, config, action).chats[p].unread_count != s.chats[p].unread_count
            ==> {
            &&& action == Action::NextChat || action == Action::PrevChat
            &&& state_after_action(s, db, config, action).chat_list_state.selected == Some(
                p as usize,
            )
            &&& state_after_action(s, db, config, action).chats[p].unread_count == 0
        },
{
}

/// The store after an action of the user that met the state `s`.
pub open spec fn db_after_action(
    db: DbView,
    s: AppStateView,
    action: Action,
    now: Timestamp,
) -> DbView {
    match action {
        Action::NextChat => db_after_viewing(db, state_after_next_chat(s), now),
        Action::PrevChat => db_after_viewing(db, state_after_prev_chat(s), now),
        Action::ConfirmRename => db_after_rename(db, s),
        _ => db,
    }
}

/// What an action of the user leaves for the caller to do and to know.
pub struct ActionOutcome {
    /// The rows written to the store, in the order written.
    pub writes: Vec<RowWrite>,
    /// How sending ended, where the action sent a message.
    pub sent: Option<Result<UnifiedMessage, ProviderError>>,
    /// Whether the action changed the configuration.
    pub config_changed: bool,
}

/// The client: the state the screen is drawn from, the router with its
/// providers, the store and the configuration.
pub struct App<P: MessagingProvider> {
    pub state: AppState,
    pub router: MessageRouter<P>,
    pub db: Database,
    pub config: AppConfig,
}

impl<P: MessagingProvider> App<P> {
    /// State and store of the client, side by side.
    pub open spec fn mirror(&self) -> Mirror {
        Mirror { state: self.state@, db: self.db@ }
    }

    /// A client on a store and a configuration, with no provider yet.
    pub fn new(config: AppConfig, db: Database) -> (app: Self)
        ensures
            app.state@ == initial_state(),
            app.db == db,
            app.config == config,
            app.router.provider_count() == 0,
            app.router.taken() == Seq::<EventView>::empty(),
            app.router.announced() == Seq::<EventView>::empty(),
    {
        App { state: AppState::new(), router: MessageRouter::new(), db, config }
    }

    /// Starts every provider and loads the chats of the store into the state,
    /// most recently written first. An empty store leaves the chats of the
    /// state as they are. The result holds, for each provider, how its start
    /// ended; no failure keeps the client from going on.
    pub fn start(&mut self) -> (started: Vec<Result<(), ProviderError>>)
        ensures
            final(self).state@ == (AppStateView {
                chats: if old(self).db@.chats.len() > 0 {
                    chats_of(recent_first(old(self).db@.chats))
                } else {
                    old(self).state@.chats
                },
                ..old(self).state@
            }),
            final(self).db == old(self).db,
            final(self).config == old(self).config,
            final(self).router.platforms() == old(self).router.platforms(),
            final(self).router.taken() == old(self).router.taken(),
            final(self).router.announced() == old(self).router.announced() + start_failures(
                old(self).router.platforms(),
                started@,
            ),
            started.len() == final(self).router.platforms().len(),
            forall|i: int|
                0 <= i < started.len() ==> ((#[trigger] started[i]) is Ok
                    ==> final(self).router.is_running(i)),
    {
        let started = self.router.start_all();
        let chats = self.db.get_all_chats();
        proof {
            crate::storage::chats::lemma_recent_first(self.db@.chats);
            assert(chats.deep_view().len() == chats.len());
            assert(chats_of(recent_first(self.db@.chats)).len() == self.db@.chats.len());
        }
        if chats.len() > 0 {
            self.state.chats = chats;
        }
        started
    }

    /// One tick: takes up to [`MAX_EVENTS_PER_TICK`] events off the router's
    /// queue, in the order in which they arrived, merges them into the state
    /// and writes them to the store. Every event that the tick took off the
    /// queue is handled, in the order taken, and no other. The result is the
    /// rows written.
    pub fn handle_tick(&mut self, now: Timestamp) -> (writes: Vec<RowWrite>)
        ensures
            exists|events: Seq<EventView>|
                {
                    &&& events.len() <= MAX_EVENTS_PER_TICK
                    &&& final(self).router.taken() == old(self).router.taken() + events
                    &&& #[trigger] stepped_all(old(self).mirror(), events, now) == final(self).mirror()
                },
            final(self).db@ == old(self).db@.after_writes(writes.deep_view()),
            old(self).db@.keys_unique() ==> final(self).db@.keys_unique(),
            final(self).config == old(self).config,
            final(self).router.same_providers(&old(self).router),
            final(self).router.platforms() == old(self).router.platforms(),
            final(self).router.announced() == old(self).router.announced(),
    {
        let events = self.router.drain(MAX_EVENTS_PER_TICK);
        let ghost taken = events.deep_view();
        let writes = apply_events(&mut self.state, &mut self.db, events, now);
        assert(stepped_all(old(self).mirror(), taken, now) == self.mirror());
        writes
    }

    /// Loads the messages of the selected chat from the store and marks the
    /// chat as read.
    pub fn view_selected_chat(&mut self, now: Timestamp) -> (writes: Vec<RowWrite>)
        ensures
            final(self).state@ == state_after_viewing(old(self).state@, old(self).db@),
            final(self).db@ == db_after_viewing(old(self).db@, old(self).state@, now),
            final(self).db@ == old(self).db@.after_writes(writes.deep_view()),
            old(self).db@.keys_unique() ==> final(self).db@.keys_unique(),
            final(self).config == old(self).config,
            final(self).router == old(self).router,
    {
        let ghost start = self.db@;
        let mut writes: Vec<RowWrite> = Vec::new();
        assert(writes.deep_view() =~= Seq::empty());
        self.load_selected_chat_messages();
        let written = self.clear_selected_unread(now);
        note_write(&mut writes, written, Ghost(start));
        writes
    }

    /// Loads the messages of the selected chat from the store; they are shown
    /// from their end.
    fn load_selected_chat_messages(&mut self)
        ensures
            final(self).state@ == (match old(self).state@.selected_chat_id() {
                Some(id) => AppStateView {
                    messages: messages_for_chat(old(self).db@.messages, id),
                    scroll_offset: 0,
                    ..old(self).state@
                },
                None => old(self).state@,
            }),
            final(self).db == old(self).db,
            final(self).config == old(self).config,
            final(self).router == old(self).router,
    {
        let loaded = match self.state.selected_chat_id() {
            Some(id) => Some(self.db.get_messages_for_chat(id)),
            None => None,
        };
        match loaded {
            Some(messages) => {
                self.state.messages = messages;
                self.state.scroll_offset = 0;
            },
            None => {},
        }
    }

    /// Marks the selected chat as read, in the state and in the store.
    fn clear_selected_unread(&mut self, now: Timestamp) -> (written: Option<RowWrite>)
        ensures
            final(self).state@ == (match old(self).state@.selected_chat_id() {
                Some(id) => AppStateView {
                    chats: old(self).state@.chats.update(
                        old(self).state@.chat_list_state.selected->0 as int,
                        ChatView {
                            unread_count: 0,
                            ..old(self).state@.chats[old(self).state@.chat_list_state.selected->0 as int]
                        },
                    ),
                    ..old(self).state@
                },
                None => old(self).state@,
            }),
            final(self).db@ == db_after_viewing(old(self).db@, old(self).state@, now),
            final(self).db@ == old(self).db@.after_optional_write(
                crate::storage::db::write_view(written),
            ),
            old(self).db@.keys_unique() ==> final(self).db@.keys_unique(),
            final(self).config == old(self).config,
            final(self).router == old(self).router,
    {
        match self.state.chat_list_state.selected() {
            Some(at) => {
                if at < self.state.chats.len() {
                    if self.state.chats[at].unread_count > 0 {
                        let ghost before = self.state.chats.deep_view();
                        self.state.chats[at].unread_count = 0;
                        assert(self.state.chats.deep_view() =~= before.update(
                            at as int,
                            ChatView { unread_count: 0, ..before[at as int] },
                        ));
                        self.db.update_unread_count(self.state.chats[at].id.as_str(), 0, now)
                    } else {
                        assert(self.state.chats.deep_view() =~= self.state.chats.deep_view().update(
                            at as int,
                            ChatView {
                                unread_count: 0,
                                ..self.state.chats.deep_view()[at as int]
                            },
                        ));
                        None
                    }
                } else {
                    None
                }
            },
            None => None,
        }
    }

    /// Sends what the input line holds to the selected chat, through the
    /// provider that owns the chat, and empties the input line. With an empty
    /// input line, or no chat selected, nothing is sent. The message comes
    /// back as an event; the result only tells how sending ended.
    pub fn submit_message(&mut self) -> (sent: Option<Result<UnifiedMessage, ProviderError>>)
        ensures
            final(self).state@ == (AppStateView {
                input_buffer: Seq::empty(),
                cursor_position: 0,
                ..old(self).state@
            }),
            final(self).db == old(self).db,
            final(self).config == old(self).config,
            final(self).router.platforms() == old(self).router.platforms(),
            final(self).router.taken() == old(self).router.taken(),
            final(self).router.announced() == old(self).router.announced(),
            sent is Some <==> old(self).state@.input_buffer.len() > 0 && old(
                self,
            ).state@.selected_chat_id() is Some,
            sent matches Some(Ok(msg)) ==> is_optimistic_echo(
                msg@,
                old(self).state@.chats[old(self).state@.chat_list_state.selected->0 as int].platform,
                old(self).state@.selected_chat_id()->0,
                ContentView::Text(old(self).state@.input_buffer),
            ),
            sent is Some && platform_position(
                old(self).router.platforms(),
                old(self).state@.chats[old(self).state@.chat_list_state.selected->0 as int].platform,
            ) == old(self).router.platforms().len() ==> sent matches Some(
                Err(ProviderError::NotConnected),
            ),
    {
        let input = self.state.take_input();
        if input.as_str().is_empty() {
            return None;
        }
        match self.state.chat_list_state.selected() {
            Some(at) => {
                if at < self.state.chats.len() {
                    assert(self.state.chats.deep_view()[at as int] == self.state.chats[at as int]@);
                    Some(self.router.send_to_chat(&self.state.chats[at], MessageContent::Text(input)))
                } else {
                    None
                }
            },
            None => None,
        }
    }

    /// Gives the selected chat the name that the input line holds, as the
    /// user's own name for it, in the state and in the store.
    pub fn confirm_rename(&mut self) -> (written: Option<RowWrite>)
        ensures
            final(self).state@ == state_after_rename(old(self).state@),
            final(self).db@ == db_after_rename(old(self).db@, old(self).state@),
            final(self).db@ == old(self).db@.after_optional_write(
                crate::storage::db::write_view(written),
            ),
            old(self).db@.keys_unique() ==> final(self).db@.keys_unique(),
            final(self).config == old(self).config,
            final(self).router == old(self).router,
    {
        let name = self.state.take_input();
        self.state.input_mode = InputMode::Normal;
        if name.as_str().is_empty() {
            return None;
        }
        match self.state.chat_list_state.selected() {
            Some(at) => {
                if at < self.state.chats.len() {
                    let ghost before = self.state.chats.deep_view();
                    let written = self.db.set_display_name(
                        self.state.chats[at].id.as_str(),
                        name.as_str(),
                    );
                    self.state.chats[at].display_name = Some(name);
                    assert(self.state.chats.deep_view() =~= before.update(
                        at as int,
                        ChatView { display_name: Some(name@), ..before[at as int] },
                    ));
                    written
                } else {
                    None
                }
            },
            None => None,
        }
    }

    /// Writes the values of the settings dialog into the configuration and
    /// closes the dialog. With the dialog closed the configuration stays.
    pub fn save_settings(&mut self) -> (changed: bool)
        ensures
            final(self).state@ == (AppStateView {
                settings_state: None,
                input_mode: InputMode::Normal,
                ..old(self).state@
            }),
            changed == old(self).state@.settings_state is Some,
            old(self).state@.settings_state matches Some(dialog) ==> outcome_of(final(self).config)
                == applied_items(outcome_of(old(self).config), dialog.items),
            old(self).state@.settings_state is None ==> final(self).config == old(self).config,
            final(self).config.tui == old(self).config.tui,
            final(self).db == old(self).db,
            final(self).router == old(self).router,
    {
        let changed = match &self.state.settings_state {
            Some(dialog) => {
                dialog.apply_to_config(&mut self.config);
                true
            },
            None => false,
        };
        self.state.close_settings();
        changed
    }

    /// Whether `after` and `outcome` are what carrying out `action` makes of
    /// `before`.
    pub open spec fn carried_out(
        before: &Self,
        after: &Self,
        action: Action,
        now: Timestamp,
        outcome: ActionOutcome,
    ) -> bool {
        &&& after.state@ == state_after_action(before.state@, before.db@, before.config, action)
        &&& after.db@ == db_after_action(before.db@, before.state@, action, now)
        &&& after.db@ == before.db@.after_writes(outcome.writes.deep_view())
        &&& (before.db@.keys_unique() ==> after.db@.keys_unique())
        &&& after.router.platforms() == before.router.platforms()
        &&& after.router.taken() == before.router.taken()
        &&& after.router.announced() == before.router.announced()
        &&& (action != Action::SettingsSave ==> after.config == before.config
            && !outcome.config_changed)
        &&& (action == Action::SettingsSave ==> {
            &&& outcome.config_changed == before.state@.settings_state is Some
            &&& (before.state@.settings_state matches Some(dialog) ==> outcome_of(after.config)
                == applied_items(outcome_of(before.config), dialog.items))
            &&& (before.state@.settings_state is None ==> after.config == before.config)
        })
        &&& (outcome.sent is Some <==> action == Action::SubmitMessage
            && before.state@.input_buffer.len() > 0 && before.state@.selected_chat_id() is Some)
        &&& (outcome.sent matches Some(Ok(msg)) ==> is_optimistic_echo(
            msg@,
            before.state@.chats[before.state@.chat_list_state.selected->0 as int].platform,
            before.state@.selected_chat_id()->0,
            ContentView::Text(before.state@.input_buffer),
        ))
    }

    /// Carries out an action that moves through the chats and messages.
    fn act_on_view(&mut self, action: Action, now: Timestamp) -> (outcome: ActionOutcome)
        requires
            action == Action::Quit || action == Action::SwitchPanel || action == Action::NextChat
                || action == Action::PrevChat || action == Action::ScrollUp || action
                == Action::ScrollDown || action == Action::Nothing,
        ensures
            Self::carried_out(old(self), final(self), action, now, outcome),
    {
        let mut outcome = ActionOutcome { writes: Vec::new(), sent: None, config_changed: false };
        assert(outcome.writes.deep_view() =~= Seq::empty());
        match action {
            Action::Quit => {
                self.state.should_quit = true;
            },
            Action::SwitchPanel => {
                self.state.switch_panel();
            },
            Action::NextChat => {
                self.state.select_next_chat();
                outcome.writes = self.view_selected_chat(now);
            },
            Action::PrevChat => {
                self.state.select_prev_chat();
                outcome.writes = self.view_selected_chat(now);
            },
            Action::ScrollUp => {
                self.state.scroll_up();
            },
            Action::ScrollDown => {
                self.state.scroll_down();
            },
            _ => {},
        }
        outcome
    }

    /// Carries out an action on the input line.
    fn act_on_input(&mut self, action: Action, now: Timestamp) -> (outcome: ActionOutcome)
        requires
            action == Action::EnterEditing || action == Action::ExitEditing || action
                == Action::SubmitMessage || action == Action::DeleteChar || action
                is InsertChar || action == Action::RenameChat || action == Action::ConfirmRename
                || action == Action::CancelRename,
        ensures
            Self::carried_out(old(self), final(self), action, now, outcome),
    {
        let ghost start = self.db@;
        let mut outcome = ActionOutcome { writes: Vec::new(), sent: None, config_changed: false };
        assert(outcome.writes.deep_view() =~= Seq::empty());
        match action {
            Action::EnterEditing => {
                self.state.enter_editing();
            },
            Action::ExitEditing => {
                self.state.exit_editing();
            },
            Action::SubmitMessage => {
                outcome.sent = self.submit_message();
            },
            Action::DeleteChar => {
                if self.state.input_buffer.as_str().is_char_boundary(self.state.cursor_position) {
                    self.state.delete_char();
                }
            },
            Action::InsertChar(c) => {
                if self.state.input_buffer.as_str().is_char_boundary(self.state.cursor_position) {
                    self.state.push_char(c);
                }
            },
            Action::RenameChat => {
                if self.state.selected_chat_id().is_some() {
                    let _ = self.state.take_input();
                    self.state.input_mode = InputMode::Renaming;
                }
            },
            Action::ConfirmRename => {
                let written = self.confirm_rename();
                note_write(&mut outcome.writes, written, Ghost(start));
            },
            Action::CancelRename => {
                let _ = self.state.take_input();
                self.state.input_mode = InputMode::Normal;
            },
            _ => {},
        }
        outcome
    }

    /// Carries out an action of the settings dialog.
    fn act_on_settings(&mut self, action: Action, now: Timestamp) -> (outcome: ActionOutcome)
        requires
            action == Action::OpenSettings || action == Action::SettingsNext || action
                == Action::SettingsPrev || action == Action::SettingsToggle || action
                == Action::SettingsSave || action == Action::SettingsClose,
        ensures
            Self::carried_out(old(self), final(self), action, now, outcome),
    {
        let mut outcome = ActionOutcome { writes: Vec::new(), sent: None, config_changed: false };
        assert(outcome.writes.deep_view() =~= Seq::empty());
        match action {
            Action::OpenSettings => {
                self.state.open_settings(&self.config);
            },
            Action::SettingsNext => {
                match &mut self.state.settings_state {
                    Some(dialog) => {
                        dialog.select_next();
                    },
                    None => {},
                }
            },
            Action::SettingsPrev => {
                match &mut self.state.settings_state {
                    Some(dialog) => {
                        dialog.select_prev();
                    },
                    None => {},
                }
            },
            Action::SettingsToggle => {
                match &mut self.state.settings_state {
                    Some(dialog) => {
                        dialog.toggle_selected();
                    },
                    None => {},
                }
            },
            Action::SettingsSave => {
                outcome.config_changed = self.save_settings();
            },
            Action::SettingsClose => {
                self.state.close_settings();
            },
            _ => {},
        }
        outcome
    }

    /// Carries out an action of the user. What it does to the state and to
    /// the store is what [`state_after_action`] and [`db_after_action`] say;
    /// the outcome holds the rows written, how sending ended where a message
    /// was sent, and whether the configuration changed.
    pub fn handle_action(&mut self, action: Action, now: Timestamp) -> (outcome: ActionOutcome)
        ensures
            Self::carried_out(old(self), final(self), action, now, outcome),
    {
        match action {
            Action::Quit | Action::SwitchPanel | Action::NextChat | Action::PrevChat
            | Action::ScrollUp | Action::ScrollDown | Action::Nothing => self.act_on_view(action, now),
            Action::EnterEditing | Action::ExitEditing | Action::SubmitMessage | Action::DeleteChar
            | Action::InsertChar(_) | Action::RenameChat | Action::ConfirmRename
            | Action::CancelRename => self.act_on_input(action, now),
            Action::OpenSettings | Action::SettingsNext | Action::SettingsPrev
            | Action::SettingsToggle | Action::SettingsSave | Action::SettingsClose => {
                self.act_on_settings(action, now)
            },
        }
    }

    /// Stops every provider.
    pub fn stop(&mut self) -> (stopped: Vec<Result<(), ProviderError>>)
        ensures
            final(self).state == old(self).state,
            final(self).db == old(self).db,
            final(self).config == old(self).config,
            final(self).router.platforms() == old(self).router.platforms(),
            final(self).router.taken() == old(self).router.taken(),
            final(self).router.announced() == old(self).router.announced(),
            forall|i: int|
                0 <= i < final(self).router.platforms().len() ==> !final(self).router.is_running(i),
    {
        self.router.stop_all()
    }
}

} // verus!
