//! The WhatsApp backend, as far as it decides: which events of the unified
//! timeline a report of the backend becomes, and what goes out when the user
//! sends. Talking to the network is left to the caller.

pub mod convert;

use vstd::prelude::*;
use vstd::string::StringExecFns;

use crate::messaging::provider::{EventSink, EventView, ProviderError, ProviderEvent};
use crate::messaging::types::{
    AuthStatus, ChatView, MessageContent, MessageStatus, MessageView, Platform, Timestamp,
    UnifiedChat, UnifiedMessage,
};
use crate::providers::whatsapp::convert::{
    chat_id_prefix, chat_id_to_jid, display_name_of_jid, jid_of_chat_id, jid_to_chat_id,
    jid_to_display_name, outgoing_text, sent_message, wa_message_to_unified, wa_sent, wa_unified,
    WaMessage, WaMessageView,
};
use crate::text::same_text;

verus! {

/// What comes with a WhatsApp message: who sent it, where, and when.
#[derive(Debug)]
pub struct WaMessageInfo {
    pub id: String,
    pub push_name: String,
    pub timestamp: Timestamp,
    pub chat: String,
    pub sender: String,
    pub is_from_me: bool,
    pub is_group: bool,
}

/// Mathematical model of [`WaMessageInfo`].
pub struct WaMessageInfoView {
    pub id: Seq<char>,
    pub push_name: Seq<char>,
    pub timestamp: Timestamp,
    pub chat: Seq<char>,
    pub sender: Seq<char>,
    pub is_from_me: bool,
    pub is_group: bool,
}

impl View for WaMessageInfo {
    type V = WaMessageInfoView;

    open spec fn view(&self) -> WaMessageInfoView {
        WaMessageInfoView {
            id: self.id@,
            push_name: self.push_name@,
            timestamp: self.timestamp,
            chat: self.chat@,
            sender: self.sender@,
            is_from_me: self.is_from_me,
            is_group: self.is_group,
        }
    }
}

/// What the WhatsApp backend reports.
#[derive(Debug)]
pub enum WaEvent {
    /// A code to pair this device with.
    PairingQrCode { code: String },
    Connected,
    LoggedOut,
    PairSuccess,
    PairError,
    Message { msg: WaMessage, info: WaMessageInfo },
    /// Messages were received or read; `kind` is the name of the receipt.
    Receipt { kind: String, message_ids: Vec<String> },
    /// Anything else the backend reports; it changes nothing.
    Other,
}

/// Mathematical model of [`WaEvent`].
pub enum WaEventView {
    PairingQrCode { code: Seq<char> },
    Connected,
    LoggedOut,
    PairSuccess,
    PairError,
    Message { msg: WaMessageView, info: WaMessageInfoView },
    Receipt { kind: Seq<char>, message_ids: Seq<Seq<char>> },
    Other,
}

impl View for WaEvent {
    type V = WaEventView;

    open spec fn view(&self) -> WaEventView {
        match self {
            WaEvent::PairingQrCode { code } => WaEventView::PairingQrCode { code: code@ },
            WaEvent::Connected => WaEventView::Connected,
            WaEvent::LoggedOut => WaEventView::LoggedOut,
            WaEvent::PairSuccess => WaEventView::PairSuccess,
            WaEvent::PairError => WaEventView::PairError,
            WaEvent::Message { msg, info } => WaEventView::Message { msg: msg@, info: info@ },
            WaEvent::Receipt { kind, message_ids } => WaEventView::Receipt {
                kind: kind@,
                message_ids: message_ids.deep_view(),
            },
            WaEvent::Other => WaEventView::Other,
        }
    }
}

/// The name that the chat of a message goes by: for the user's own message
/// the address of the chat, else the name the sender goes by, else the
/// sender's address, both addresses without what follows the `@`.
pub open spec fn wa_chat_name(info: WaMessageInfoView) -> Seq<char> {
    if info.is_from_me {
        display_name_of_jid(info.chat)
    } else if info.push_name.len() > 0 {
        info.push_name
    } else {
        display_name_of_jid(info.sender)
    }
}

/// The chat that a message announces.
pub open spec fn wa_chat(unified: MessageView, info: WaMessageInfoView) -> ChatView {
    ChatView {
        id: chat_id_prefix() + info.chat,
        platform: Platform::WhatsApp,
        name: wa_chat_name(info),
        display_name: None,
        last_message: Some(unified.content.preview()),
        unread_count: if unified.is_outgoing {
            0
        } else {
            1
        },
        is_group: info.is_group,
    }
}

/// The status that a receipt stands for: read for a receipt of reading,
/// delivered for any other.
pub open spec fn receipt_status(kind: Seq<char>) -> MessageStatus {
    if kind == "Read"@ || kind == "ReadSelf"@ {
        MessageStatus::Read
    } else {
        MessageStatus::Delivered
    }
}

/// The events of the unified timeline that a report of the backend becomes.
pub open spec fn events_of(event: WaEventView) -> Seq<EventView> {
    match event {
        WaEventView::PairingQrCode { code } => seq![EventView::AuthQrCode(code)],
        WaEventView::Connected => seq![
            EventView::AuthStatusChanged(Platform::WhatsApp, AuthStatus::Authenticated),
        ],
        WaEventView::LoggedOut => seq![
            EventView::AuthStatusChanged(Platform::WhatsApp, AuthStatus::NotAuthenticated),
        ],
        WaEventView::PairSuccess => Seq::empty(),
        WaEventView::PairError => seq![
            EventView::AuthStatusChanged(Platform::WhatsApp, AuthStatus::Failed),
        ],
        WaEventView::Message { msg, info } => match wa_unified(
            msg,
            info.push_name,
            info.id,
            info.timestamp,
            info.chat,
            info.sender,
            info.is_from_me,
        ) {
            Some(unified) => seq![
                EventView::ChatsUpdated(seq![wa_chat(unified, info)]),
                EventView::NewMessage(unified),
            ],
            None => Seq::empty(),
        },
        WaEventView::Receipt { kind, message_ids } => message_ids.map_values(
            |id: Seq<char>|
                EventView::MessageStatusUpdate { message_id: id, status: receipt_status(kind) },
        ),
        WaEventView::Other => Seq::empty(),
    }
}

fn message_events(msg: &WaMessage, info: &WaMessageInfo) -> (events: Vec<ProviderEvent>)
    ensures
        events.deep_view() == events_of(WaEventView::Message { msg: msg@, info: info@ }),
{
    let mut events: Vec<ProviderEvent> = Vec::new();
    let unified = wa_message_to_unified(
        msg,
        info.push_name.as_str(),
        info.id.as_str(),
        info.timestamp,
        info.chat.as_str(),
        info.sender.as_str(),
        info.is_from_me,
        info.is_group,
    );
    match unified {
        Some(unified) => {
            let chat_name = if info.is_from_me {
                jid_to_display_name(info.chat.as_str())
            } else if !info.push_name.as_str().is_empty() {
                info.push_name.clone()
            } else {
                jid_to_display_name(info.sender.as_str())
            };
            let unread: u32 = if unified.is_outgoing {
                0
            } else {
                1
            };
            let chat = UnifiedChat {
                id: jid_to_chat_id(info.chat.as_str()),
                platform: Platform::WhatsApp,
                name: chat_name,
                display_name: None,
                last_message: Some(String::from_str(unified.content.as_text())),
                unread_count: unread,
                is_group: info.is_group,
            };
            let mut batch: Vec<UnifiedChat> = Vec::new();
            batch.push(chat);
            assert(batch.deep_view() =~= seq![wa_chat(unified@, info@)]);
            events.push(ProviderEvent::ChatsUpdated(batch));
            events.push(ProviderEvent::NewMessage(unified));
            assert(events.deep_view() =~= events_of(
                WaEventView::Message { msg: msg@, info: info@ },
            ));
        },
        None => {
            assert(events.deep_view() =~= Seq::empty());
        },
    }
    events
}

fn receipt_events(kind: &str, message_ids: &Vec<String>) -> (events: Vec<ProviderEvent>)
    ensures
        events.deep_view() == events_of(
            WaEventView::Receipt { kind: kind@, message_ids: message_ids.deep_view() },
        ),
{
    let status = if same_text(kind, "Read") || same_text(kind, "ReadSelf") {
        MessageStatus::Read
    } else {
        MessageStatus::Delivered
    };
    let mut events: Vec<ProviderEvent> = Vec::new();
    let mut i: usize = 0;
    while i < message_ids.len()
        invariant
            0 <= i <= message_ids.len(),
            status == receipt_status(kind@),
            events.len() == i,
            forall|k: int|
                0 <= k < i ==> (#[trigger] events.deep_view()[k]) == (EventView::MessageStatusUpdate {
                    message_id: message_ids[k]@,
                    status: status,
                }),
        decreases message_ids.len() - i,
    {
        let ghost before = events.deep_view();
        events.push(
            ProviderEvent::MessageStatusUpdate { message_id: message_ids[i].clone(), status },
        );
        assert(events.deep_view() =~= before.push(
            EventView::MessageStatusUpdate { message_id: message_ids[i as int]@, status: status },
        ));
        i += 1;
    }
    assert(events.deep_view() =~= events_of(
        WaEventView::Receipt { kind: kind@, message_ids: message_ids.deep_view() },
    ));
    events
}

/// The events of the unified timeline that a report of the backend becomes,
/// in the order in which they are to be delivered.
pub fn events_for(event: &WaEvent) -> (events: Vec<ProviderEvent>)
    ensures
        events.deep_view() == events_of(event@),
{
    let mut events: Vec<ProviderEvent> = Vec::new();
    match event {
        WaEvent::PairingQrCode { code } => {
            events.push(ProviderEvent::AuthQrCode(code.clone()));
            assert(events.deep_view() =~= events_of(event@));
        },
        WaEvent::Connected => {
            events.push(
                ProviderEvent::AuthStatusChanged(Platform::WhatsApp, AuthStatus::Authenticated),
            );
            assert(events.deep_view() =~= events_of(event@));
        },
        WaEvent::LoggedOut => {
            events.push(
                ProviderEvent::AuthStatusChanged(Platform::WhatsApp, AuthStatus::NotAuthenticated),
            );
            assert(events.deep_view() =~= events_of(event@));
        },
        WaEvent::PairSuccess => {
            assert(events.deep_view() =~= events_of(event@));
        },
        WaEvent::PairError => {
            events.push(ProviderEvent::AuthStatusChanged(Platform::WhatsApp, AuthStatus::Failed));
            assert(events.deep_view() =~= events_of(event@));
        },
        WaEvent::Message { msg, info } => {
            events = message_events(msg, info);
        },
        WaEvent::Receipt { kind, message_ids } => {
            events = receipt_events(kind.as_str(), message_ids);
        },
        WaEvent::Other => {
            assert(events.deep_view() =~= events_of(event@));
        },
    }
    events
}

/// What sending a content to a chat asks of the backend: the address to
/// send to and the text to send.
pub struct Outgoing {
    pub jid: String,
    pub text: String,
}

/// The state of the WhatsApp backend that the client decides on: whether it
/// runs, how far its pairing is, and where its events go. The connection
/// itself is the caller's.
pub struct WhatsAppProvider {
    sink: Option<EventSink>,
    auth_status: AuthStatus,
    session_db_path: String,
    running: bool,
    /// Every event that the backend handed to a sink so far.
    delivered: Ghost<Seq<EventView>>,
}

impl WhatsAppProvider {
    /// Whether the backend was started and not stopped since.
    pub closed spec fn is_running(&self) -> bool {
        self.running
    }

    /// Whether the backend holds a sink to deliver through: it does from the
    /// first step of starting until it is stopped.
    pub closed spec fn has_sink(&self) -> bool {
        self.sink is Some
    }

    /// Every event that the backend handed to its sink since it was made, in
    /// the order in which it handed them over.
    pub closed spec fn delivered(&self) -> Seq<EventView> {
        self.delivered@
    }

    /// Whether the backend runs, holds a sink, is paired and keeps its
    /// session as `before` does.
    pub open spec fn same_state(&self, before: &Self) -> bool {
        &&& self.is_running() == before.is_running()
        &&& self.has_sink() == before.has_sink()
        &&& self.auth_status_spec() == before.auth_status_spec()
        &&& self.session_path() == before.session_path()
    }

    /// How far the pairing of the backend is.
    pub closed spec fn auth_status_spec(&self) -> AuthStatus {
        self.auth_status
    }

    /// Where the backend keeps its session.
    pub closed spec fn session_path(&self) -> Seq<char> {
        self.session_db_path@
    }

    /// A backend that keeps its session at the given path. It is not started.
    pub fn new(session_db_path: String) -> (provider: Self)
        ensures
            !provider.is_running(),
            !provider.has_sink(),
            provider.auth_status_spec() == AuthStatus::NotAuthenticated,
            provider.session_path() == session_db_path@,
            provider.delivered() == Seq::<EventView>::empty(),
    {
        WhatsAppProvider {
            sink: None,
            auth_status: AuthStatus::NotAuthenticated,
            session_db_path,
            running: false,
            delivered: Ghost(Seq::empty()),
        }
    }

    pub fn session_db_path(&self) -> (path: &str)
        ensures
            path@ == self.session_path(),
    {
        self.session_db_path.as_str()
    }

    pub fn auth_status(&self) -> (status: AuthStatus)
        ensures
            status == self.auth_status_spec(),
    {
        self.auth_status
    }

    pub fn name(&self) -> (name: String)
        ensures
            name@ == "WhatsApp"@,
    {
        String::from_str("WhatsApp")
    }

    pub fn platform(&self) -> (platform: Platform)
        ensures
            platform == Platform::WhatsApp,
    {
        Platform::WhatsApp
    }

    /// The first step of starting: the backend is pairing, and says so
    /// through the sink, which it keeps.
    pub fn begin_start(&mut self, sink: EventSink)
        ensures
            final(self).auth_status_spec() == AuthStatus::Authenticating,
            final(self).has_sink(),
            final(self).is_running() == old(self).is_running(),
            final(self).session_path() == old(self).session_path(),
            final(self).delivered() == old(self).delivered().push(
                EventView::AuthStatusChanged(Platform::WhatsApp, AuthStatus::Authenticating),
            ),
    {
        self.auth_status = AuthStatus::Authenticating;
        proof {
            self.delivered@ = self.delivered@.push(
                EventView::AuthStatusChanged(Platform::WhatsApp, AuthStatus::Authenticating),
            );
        }
        let _ = sink.send(
            ProviderEvent::AuthStatusChanged(Platform::WhatsApp, AuthStatus::Authenticating),
        );
        self.sink = Some(sink);
    }

    /// The last step of starting, once the connection is up: the backend runs.
    pub fn finish_start(&mut self)
        ensures
            final(self).is_running(),
            final(self).has_sink() == old(self).has_sink(),
            final(self).auth_status_spec() == old(self).auth_status_spec(),
            final(self).session_path() == old(self).session_path(),
            final(self).delivered() == old(self).delivered(),
    {
        self.running = true;
    }

    /// Stops the backend: it delivers nothing more and refuses to send.
    pub fn stop(&mut self)
        ensures
            !final(self).is_running(),
            !final(self).has_sink(),
            final(self).auth_status_spec() == AuthStatus::NotAuthenticated,
            final(self).session_path() == old(self).session_path(),
            final(self).delivered() == old(self).delivered(),
    {
        self.sink = None;
        self.running = false;
        self.auth_status = AuthStatus::NotAuthenticated;
    }

    /// Delivers what a report of the backend becomes: the events that
    /// [`events_for`] makes of it are handed to the sink, in their order.
    /// Returns how many of them the queue took, which is for the queue to
    /// say; without a sink nothing is handed over.
    pub fn deliver(&mut self, event: &WaEvent) -> (taken: usize)
        ensures
            taken <= events_of(event@).len(),
            !old(self).has_sink() ==> taken == 0,
            final(self).delivered() == (if old(self).has_sink() {
                old(self).delivered() + events_of(event@)
            } else {
                old(self).delivered()
            }),
            final(self).same_state(old(self)),
    {
        let events = events_for(event);
        let ghost all = events.deep_view();
        let ghost mut handed: Seq<EventView> = Seq::empty();
        let count = events.len();
        let mut taken: usize = 0;
        match &self.sink {
            Some(sink) => {
                for out in it: events
                    invariant
                        it.seq().len() == all.len(),
                        all.len() == count,
                        forall|k: int| 0 <= k < all.len() ==> (#[trigger] it.seq()[k])@ == all[k],
                        handed == all.take(it.index() as int),
                        taken <= it.index(),
                {
                    proof {
                        handed = handed.push(out@);
                        assert(handed =~= all.take(it.index() + 1));
                    }
                    if sink.send(out) {
                        taken = taken + 1;
                    }
                }
                proof {
                    assert(all.take(all.len() as int) =~= all);
                }
            },
            None => {},
        }
        proof {
            self.delivered@ = self.delivered@ + handed;
            assert(old(self).delivered@ + Seq::<EventView>::empty() =~= old(self).delivered@);
        }
        taken
    }

    /// What sending asks of the backend; the reason where nothing can be
    /// sent: the backend does not run, or the chat is none of WhatsApp.
    pub fn prepare_send(&self, chat_id: &str, content: &MessageContent) -> (outgoing: Result<
        Outgoing,
        ProviderError,
    >)
        ensures
            match outgoing {
                Ok(out) => self.is_running() && jid_of_chat_id(chat_id@) == Some(out.jid@)
                    && out.text@ == content@.preview(),
                Err(ProviderError::NotConnected) => !self.is_running(),
                Err(ProviderError::InvalidChatId(id)) => self.is_running() && jid_of_chat_id(
                    chat_id@,
                ) is None && id@ == chat_id@,
                Err(_) => false,
            },
    {
        if !self.running {
            return Err(ProviderError::NotConnected);
        }
        match chat_id_to_jid(chat_id) {
            Some(jid) => Ok(Outgoing { jid, text: outgoing_text(content) }),
            None => Err(ProviderError::InvalidChatId(String::from_str(chat_id))),
        }
    }

    /// Makes the message that sending hands back, once the backend gave it
    /// an id, and hands it to the sink as an event as well.
    pub fn finish_send(
        &mut self,
        msg_id: String,
        chat_id: &str,
        content: MessageContent,
        now: Timestamp,
    ) -> (msg: UnifiedMessage)
        ensures
            msg@ == wa_sent(msg_id@, chat_id@, content@, now),
            final(self).delivered() == (if old(self).has_sink() {
                old(self).delivered().push(EventView::NewMessage(msg@))
            } else {
                old(self).delivered()
            }),
            final(self).same_state(old(self)),
    {
        let msg = sent_message(msg_id, chat_id, content, now);
        match &self.sink {
            Some(sink) => {
                let _ = sink.send(ProviderEvent::NewMessage(msg.clone()));
            },
            None => {},
        }
        proof {
            if self.sink is Some {
                self.delivered@ = self.delivered@.push(EventView::NewMessage(msg@));
            }
        }
        msg
    }
}

} // verus!
