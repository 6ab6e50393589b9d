//! What a messaging backend is to the rest of the client: a source of
//! normalized events and a handful of operations.

use vstd::prelude::*;

use crate::messaging::types::{
    AuthStatus, ChatView, MessageContent, MessageStatus, MessageView, Platform, UnifiedChat,
    UnifiedMessage,
};

verus! {

/// Mathematical model of [`ProviderEvent`].
pub enum EventView {
    NewMessage(MessageView),
    MessageStatusUpdate { message_id: Seq<char>, status: MessageStatus },
    ChatsUpdated(Seq<ChatView>),
    AuthStatusChanged(Platform, AuthStatus),
    AuthQrCode(Seq<char>),
}

/// The one kind of value that crosses from a backend into the client.
#[derive(Debug)]
pub enum ProviderEvent {
    NewMessage(UnifiedMessage),
    MessageStatusUpdate { message_id: String, status: MessageStatus },
    ChatsUpdated(Vec<UnifiedChat>),
    AuthStatusChanged(Platform, AuthStatus),
    AuthQrCode(String),
}

impl View for ProviderEvent {
    type V = EventView;

    open spec fn view(&self) -> EventView {
        match self {
            ProviderEvent::NewMessage(m) => EventView::NewMessage(m@),
            ProviderEvent::MessageStatusUpdate { message_id, status } => {
                EventView::MessageStatusUpdate { message_id: message_id@, status: *status }
            },
            ProviderEvent::ChatsUpdated(chats) => EventView::ChatsUpdated(chats.deep_view()),
            ProviderEvent::AuthStatusChanged(p, s) => EventView::AuthStatusChanged(*p, *s),
            ProviderEvent::AuthQrCode(code) => EventView::AuthQrCode(code@),
        }
    }
}

impl DeepView for ProviderEvent {
    type V = EventView;

    open spec fn deep_view(&self) -> EventView {
        self@
    }
}

/// Copies a list of chats.
pub fn clone_chats(chats: &Vec<UnifiedChat>) -> (copy: Vec<UnifiedChat>)
    ensures
        copy.deep_view() == chats.deep_view(),
{
    let mut copy: Vec<UnifiedChat> = Vec::new();
    let mut i: usize = 0;
    while i < chats.len()
        invariant
            0 <= i <= chats.len(),
            copy.deep_view() == chats.deep_view().take(i as int),
        decreases chats.len() - i,
    {
        let ghost before = copy.deep_view();
        copy.push(chats[i].clone());
        assert(copy.deep_view() =~= before.push(chats[i as int]@));
        assert(before.push(chats[i as int]@) =~= chats.deep_view().take(i + 1));
        i += 1;
    }
    assert(chats.deep_view().take(chats.len() as int) =~= chats.deep_view());
    copy
}

impl Clone for ProviderEvent {
    fn clone(&self) -> (copy: Self)
        ensures
            copy@ == self@,
    {
        match self {
            ProviderEvent::NewMessage(m) => ProviderEvent::NewMessage(m.clone()),
            ProviderEvent::MessageStatusUpdate { message_id, status } => {
                ProviderEvent::MessageStatusUpdate { message_id: message_id.clone(), status: *status }
            },
            ProviderEvent::ChatsUpdated(chats) => ProviderEvent::ChatsUpdated(clone_chats(chats)),
            ProviderEvent::AuthStatusChanged(p, s) => ProviderEvent::AuthStatusChanged(*p, *s),
            ProviderEvent::AuthQrCode(code) => ProviderEvent::AuthQrCode(code.clone()),
        }
    }
}

/// Why an operation of a provider failed. Such a failure stays with the
/// provider: the router and the other providers go on.
#[derive(Debug)]
pub enum ProviderError {
    /// The backend has no authenticated session.
    NotAuthenticated,
    /// The provider was not started, or was stopped.
    NotConnected,
    /// The chat id is not one of this backend.
    InvalidChatId(String),
    /// The backend could not be reached, or refused.
    TransportFailure(String),
}

/// The sending end of the event channel: a tokio unbounded sender.
#[verifier::external_type_specification]
#[verifier::external_body]
#[verifier::reject_recursive_types(T)]
pub struct ExUnboundedSender<T>(tokio::sync::mpsc::UnboundedSender<T>);

/// The receiving end of the event channel: a tokio unbounded receiver.
#[verifier::external_type_specification]
#[verifier::external_body]
#[verifier::reject_recursive_types(T)]
pub struct ExUnboundedReceiver<T>(tokio::sync::mpsc::UnboundedReceiver<T>);

/// `tokio::sync::mpsc::unbounded_channel`: a new channel, as its two ends.
#[verifier::external_body]
pub(crate) fn open_channel() -> (ends: (
    tokio::sync::mpsc::UnboundedSender<ProviderEvent>,
    tokio::sync::mpsc::UnboundedReceiver<ProviderEvent>,
)) {
    tokio::sync::mpsc::unbounded_channel()
}

/// `UnboundedSender::send`: queues the event without waiting. The result
/// is whether the channel took it, which it does unless the receiving end is
/// closed or gone.
#[verifier::external_body]
fn channel_send(tx: &tokio::sync::mpsc::UnboundedSender<ProviderEvent>, event: ProviderEvent) -> (taken:
    bool) {
    tx.send(event).is_ok()
}

/// `UnboundedSender::clone`: one more sending end of the same channel.
#[verifier::external_body]
fn channel_sender_clone(tx: &tokio::sync::mpsc::UnboundedSender<ProviderEvent>) -> (copy:
    tokio::sync::mpsc::UnboundedSender<ProviderEvent>) {
    tx.clone()
}

/// `UnboundedReceiver::try_recv`: the next queued event, without waiting,
/// or nothing where none is queued at this moment. Other tasks fill the
/// channel meanwhile, so nothing is promised of what comes.
#[verifier::external_body]
pub(crate) fn channel_try_recv(rx: &mut tokio::sync::mpsc::UnboundedReceiver<ProviderEvent>) -> (next:
    Option<ProviderEvent>) {
    rx.try_recv().ok()
}

/// Where a provider delivers its events. Every sink of a router feeds the
/// same queue.
pub struct EventSink {
    tx: tokio::sync::mpsc::UnboundedSender<ProviderEvent>,
}

impl EventSink {
    /// The sending end of the channel that the sink delivers through.
    pub closed spec fn sending_end(&self) -> tokio::sync::mpsc::UnboundedSender<ProviderEvent> {
        self.tx
    }

    /// A sink that delivers through the given sending end of a channel.
    pub(crate) fn new(tx: tokio::sync::mpsc::UnboundedSender<ProviderEvent>) -> (sink: Self)
        ensures
            sink.sending_end() == tx,
    {
        EventSink { tx }
    }

    /// Queues an event for the router. Returns whether the queue took it; it
    /// does not once the router is gone.
    pub fn send(&self, event: ProviderEvent) -> (taken: bool) {
        channel_send(&self.tx, event)
    }
}

impl Clone for EventSink {
    fn clone(&self) -> (copy: Self) {
        EventSink { tx: channel_sender_clone(&self.tx) }
    }
}

/// Whether a message is what sending `content` to the chat `chat_id` hands
/// back at once: an outgoing message of that chat with that content, on its
/// way or sent.
pub open spec fn is_optimistic_echo(
    msg: MessageView,
    platform: Platform,
    chat_id: Seq<char>,
    content: crate::messaging::types::ContentView,
) -> bool {
    &&& msg.chat_id == chat_id
    &&& msg.platform == platform
    &&& msg.content == content
    &&& msg.is_outgoing
    &&& (msg.status == MessageStatus::Sending || msg.status == MessageStatus::Sent)
}

/// One messaging backend, as the router sees it.
pub trait MessagingProvider {
    /// The backend this provider speaks for. It never changes.
    spec fn serves(&self) -> Platform;

    /// Whether the provider was started and not stopped since.
    spec fn is_running(&self) -> bool;

    /// Starts the provider. It delivers its first events through `sink`
    /// before it returns, and whatever follows through `sink` as well.
    fn start(&mut self, sink: EventSink) -> (started: Result<(), ProviderError>)
        ensures
            final(self).serves() == old(self).serves(),
            started is Ok ==> final(self).is_running(),
    ;

    /// Stops the provider: it delivers nothing more and refuses to send.
    fn stop(&mut self) -> (stopped: Result<(), ProviderError>)
        ensures
            final(self).serves() == old(self).serves(),
            !final(self).is_running(),
    ;

    /// Sends `content` to a chat and hands back the message at once, before
    /// the backend confirmed it. A provider that is not running refuses.
    fn send_message(&mut self, chat_id: &str, content: MessageContent) -> (sent: Result<
        UnifiedMessage,
        ProviderError,
    >)
        ensures
            final(self).serves() == old(self).serves(),
            final(self).is_running() == old(self).is_running(),
            !old(self).is_running() ==> sent matches Err(ProviderError::NotConnected),
            sent matches Ok(msg) ==> is_optimistic_echo(
                msg@,
                old(self).serves(),
                chat_id@,
                content@,
            ),
    ;

    fn get_chats(&self) -> (chats: Result<Vec<UnifiedChat>, ProviderError>);

    fn get_messages(&self, chat_id: &str) -> (messages: Result<Vec<UnifiedMessage>, ProviderError>);

    fn name(&self) -> (name: String);

    fn platform(&self) -> (platform: Platform)
        ensures
            platform == self.serves(),
    ;

    fn auth_status(&self) -> (status: AuthStatus);
}

} // verus!
