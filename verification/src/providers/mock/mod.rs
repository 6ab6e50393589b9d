//! A backend that makes its chats and messages up: a fixed set of chats with
//! a fixed history, and now and then a random incoming message.

use vstd::prelude::*;
use vstd::string::StringExecFns;

use crate::clock::utc_now;
use crate::messaging::provider::{
    clone_chats, EventSink, EventView, MessagingProvider, ProviderError, ProviderEvent,
};
use crate::messaging::types::{
    AuthStatus, ChatView, ContentView, MessageContent, MessageStatus, MessageView, Platform,
    Timestamp, UnifiedChat, UnifiedMessage,
};
use crate::text::{decimal, decimal_text, joined, same_text};

verus! {

/// How many chats the backend can make up.
pub const CHAT_NAME_COUNT: usize = 8;

/// How many message texts the backend can make up.
pub const MOCK_MESSAGE_COUNT: usize = 20;

/// How far back the made-up history starts, in seconds: a day.
pub const HISTORY_SPAN_SECS: i64 = 86400;

/// How far apart the messages of the made-up history are, in seconds.
pub const HISTORY_STEP_SECS: i64 = 900;

/// The name of the made-up chat with the given number.
pub open spec fn chat_name_spec(index: int) -> Seq<char> {
    if index == 0 {
        "Alice Johnson"@
    } else if index == 1 {
        "Bob Smith"@
    } else if index == 2 {
        "Team Standup"@
    } else if index == 3 {
        "Eve Martinez"@
    } else if index == 4 {
        "Charlie & Dave"@
    } else if index == 5 {
        "Project Alpha"@
    } else if index == 6 {
        "Mom"@
    } else {
        "Jane Doe"@
    }
}

/// The made-up message text with the given number.
pub open spec fn mock_text_spec(index: int) -> Seq<char> {
    if index == 0 {
        "Hey, how's it going?"@
    } else if index == 1 {
        "Did you see the latest update?"@
    } else if index == 2 {
        "Let's catch up later today"@
    } else if index == 3 {
        "Sounds good to me!"@
    } else if index == 4 {
        "Can you review my PR?"@
    } else if index == 5 {
        "Meeting at 3pm, don't forget"@
    } else if index == 6 {
        "Just finished the refactor"@
    } else if index == 7 {
        "Lunch?"@
    } else if index == 8 {
        "I'll send you the details"@
    } else if index == 9 {
        "Thanks for the help!"@
    } else if index == 10 {
        "Running a bit late"@
    } else if index == 11 {
        "Check out this article I found"@
    } else if index == 12 {
        "Good morning everyone!"@
    } else if index == 13 {
        "The build is green now"@
    } else if index == 14 {
        "Happy Friday!"@
    } else if index == 15 {
        "Let me think about it"@
    } else if index == 16 {
        "Agreed, let's go with that approach"@
    } else if index == 17 {
        "Has anyone seen my coffee mug?"@
    } else if index == 18 {
        "Working from home today"@
    } else {
        "Great work on the presentation!"@
    }
}

/// The message texts of the made-up history of each chat, as numbers of
/// texts. A chat beyond the eighth has the first three texts.
pub open spec fn seed_script(chat_index: int) -> Seq<int> {
    if chat_index == 0 {
        seq![0, 3, 6, 1, 9, 14, 4]
    } else if chat_index == 1 {
        seq![2, 7, 11, 5, 16, 8]
    } else if chat_index == 2 {
        seq![12, 0, 17, 3, 14, 10, 1]
    } else if chat_index == 3 {
        seq![4, 8, 15, 2, 19, 6]
    } else if chat_index == 4 {
        seq![13, 5, 9, 18, 7, 11, 3]
    } else if chat_index == 5 {
        seq![1, 10, 16, 4, 12, 8]
    } else if chat_index == 6 {
        seq![6, 2, 15, 0, 18, 9]
    } else if chat_index == 7 {
        seq![11, 7, 13, 5, 17, 3, 19]
    } else {
        seq![0, 1, 2]
    }
}

/// The made-up chat with the given number. The third and the fifth are groups.
pub open spec fn mock_chat(index: int) -> ChatView {
    ChatView {
        id: "mock-chat-"@ + decimal_text(index as nat),
        platform: Platform::Mock,
        name: chat_name_spec(index),
        display_name: None,
        last_message: None,
        unread_count: 0,
        is_group: index == 2 || index == 4,
    }
}

/// The made-up chats of a backend asked for `count` chats: as many, but no
/// more than there are names.
pub open spec fn mock_chats(count: int) -> Seq<ChatView> {
    Seq::new(
        (if count < CHAT_NAME_COUNT {
            count
        } else {
            CHAT_NAME_COUNT as int
        }) as nat,
        |i: int| mock_chat(i),
    )
}

/// Message `j` of the made-up history of the chat that stands at
/// `chat_index`: every third one, from the first on, is the user's own; the
/// messages are a quarter of an hour apart, the first one a day before `now`.
pub open spec fn seed_message(
    chat: ChatView,
    chat_index: int,
    j: int,
    now: Timestamp,
) -> MessageView {
    MessageView {
        id: "mock-seed-"@ + decimal_text(chat_index as nat) + "-"@ + decimal_text(j as nat),
        chat_id: chat.id,
        platform: Platform::Mock,
        sender: if j % 3 == 0 {
            "You"@
        } else {
            chat.name
        },
        content: ContentView::Text(mock_text_spec(seed_script(chat_index)[j] % 20)),
        timestamp: now.shifted_spec((-HISTORY_SPAN_SECS) as i64).shifted_spec(
            (j * HISTORY_STEP_SECS) as i64,
        ),
        status: MessageStatus::Read,
        is_outgoing: j % 3 == 0,
    }
}

/// The made-up history of one chat.
pub open spec fn seed_messages_of(
    chat: ChatView,
    chat_index: int,
    now: Timestamp,
) -> Seq<MessageView> {
    Seq::new(
        seed_script(chat_index).len(),
        |j: int| seed_message(chat, chat_index, j, now),
    )
}

/// The made-up history of the first `upto` of the chats, chat after chat.
pub open spec fn seed_messages(chats: Seq<ChatView>, upto: int, now: Timestamp) -> Seq<MessageView>
    decreases upto,
{
    if upto <= 0 {
        Seq::empty()
    } else {
        seed_messages(chats, upto - 1, now) + seed_messages_of(chats[upto - 1], upto - 1, now)
    }
}

/// The made-up chats are as many as asked for, but no more than there are
/// names, and no two of them share their id.
pub proof fn lemma_mock_chats_distinct(count: int)
    requires
        0 <= count,
    ensures
        mock_chats(count).len() == (if count < CHAT_NAME_COUNT {
            count
        } else {
            CHAT_NAME_COUNT as int
        }),
        forall|i: int, j: int|
            0 <= i < j < mock_chats(count).len() ==> (#[trigger] mock_chats(count)[i]).id != (
            #[trigger] mock_chats(count)[j]).id,
{
    reveal_strlit("mock-chat-");
    let prefix = "mock-chat-"@;
    assert(prefix.len() == 10);
    assert forall|i: int, j: int| 0 <= i < j < mock_chats(count).len() implies (
    #[trigger] mock_chats(count)[i]).id != (#[trigger] mock_chats(count)[j]).id by {
        let a = prefix + decimal_text(i as nat);
        let b = prefix + decimal_text(j as nat);
        assert(a[10] == crate::text::digit_char(i));
        assert(b[10] == crate::text::digit_char(j));
    }
}

/// Every message of the made-up history is of one of the chats it was made
/// up for.
pub proof fn lemma_seed_messages_of_chats(chats: Seq<ChatView>, upto: int, now: Timestamp)
    requires
        0 <= upto <= chats.len(),
    ensures
        forall|k: int|
            0 <= k < seed_messages(chats, upto, now).len() ==> exists|c: int|
                0 <= c < upto && (#[trigger] seed_messages(chats, upto, now)[k]).chat_id
                    == chats[c].id,
    decreases upto,
{
    if upto > 0 {
        lemma_seed_messages_of_chats(chats, upto - 1, now);
        let before = seed_messages(chats, upto - 1, now);
        let all = seed_messages(chats, upto, now);
        assert forall|k: int| 0 <= k < all.len() implies exists|c: int|
            0 <= c < upto && (#[trigger] all[k]).chat_id == chats[c].id by {
            if k < before.len() {
                assert(all[k] == before[k]);
                let c = choose|c: int| 0 <= c < upto - 1 && before[k].chat_id == chats[c].id;
                assert(all[k].chat_id == chats[c].id);
            } else {
                assert(all[k].chat_id == chats[upto - 1].id);
            }
        }
    }
}

/// What a backend announces when it starts: that it is connected, its chats,
/// and their history, message by message.
pub open spec fn bootstrap(chats: Seq<ChatView>, seeds: Seq<MessageView>) -> Seq<EventView> {
    seq![
        EventView::AuthStatusChanged(Platform::Mock, AuthStatus::Authenticated),
        EventView::ChatsUpdated(chats),
    ] + seeds.map_values(|m: MessageView| EventView::NewMessage(m))
}

fn chat_name(index: usize) -> (name: &'static str)
    ensures
        name@ == chat_name_spec(index as int),
{
    if index == 0 {
        "Alice Johnson"
    } else if index == 1 {
        "Bob Smith"
    } else if index == 2 {
        "Team Standup"
    } else if index == 3 {
        "Eve Martinez"
    } else if index == 4 {
        "Charlie & Dave"
    } else if index == 5 {
        "Project Alpha"
    } else if index == 6 {
        "Mom"
    } else {
        "Jane Doe"
    }
}

fn mock_text(index: usize) -> (text: &'static str)
    ensures
        text@ == mock_text_spec(index as int),
{
    if index == 0 {
        "Hey, how's it going?"
    } else if index == 1 {
        "Did you see the latest update?"
    } else if index == 2 {
        "Let's catch up later today"
    } else if index == 3 {
        "Sounds good to me!"
    } else if index == 4 {
        "Can you review my PR?"
    } else if index == 5 {
        "Meeting at 3pm, don't forget"
    } else if index == 6 {
        "Just finished the refactor"
    } else if index == 7 {
        "Lunch?"
    } else if index == 8 {
        "I'll send you the details"
    } else if index == 9 {
        "Thanks for the help!"
    } else if index == 10 {
        "Running a bit late"
    } else if index == 11 {
        "Check out this article I found"
    } else if index == 12 {
        "Good morning everyone!"
    } else if index == 13 {
        "The build is green now"
    } else if index == 14 {
        "Happy Friday!"
    } else if index == 15 {
        "Let me think about it"
    } else if index == 16 {
        "Agreed, let's go with that approach"
    } else if index == 17 {
        "Has anyone seen my coffee mug?"
    } else if index == 18 {
        "Working from home today"
    } else {
        "Great work on the presentation!"
    }
}

fn seed_script_of(chat_index: usize) -> (script: Vec<usize>)
    ensures
        script@.len() == seed_script(chat_index as int).len(),
        forall|j: int| 0 <= j < script@.len() ==> script@[j] == seed_script(chat_index as int)[j],
        script@.len() <= 7,
{
    if chat_index == 0 {
        vec![0, 3, 6, 1, 9, 14, 4]
    } else if chat_index == 1 {
        vec![2, 7, 11, 5, 16, 8]
    } else if chat_index == 2 {
        vec![12, 0, 17, 3, 14, 10, 1]
    } else if chat_index == 3 {
        vec![4, 8, 15, 2, 19, 6]
    } else if chat_index == 4 {
        vec![13, 5, 9, 18, 7, 11, 3]
    } else if chat_index == 5 {
        vec![1, 10, 16, 4, 12, 8]
    } else if chat_index == 6 {
        vec![6, 2, 15, 0, 18, 9]
    } else if chat_index == 7 {
        vec![11, 7, 13, 5, 17, 3, 19]
    } else {
        vec![0, 1, 2]
    }
}

/// A random number below `bound`: `gen_range(0..bound)` of rand's
/// thread-local generator. The range must not be empty.
#[verifier::external_body]
fn random_below(bound: usize) -> (pick: usize)
    requires
        bound > 0,
    ensures
        pick < bound,
{
    rand::Rng::gen_range(&mut rand::thread_rng(), 0..bound)
}

/// A fresh message id: `Uuid::new_v4`, written out. It is random, so nothing
/// is promised of it.
#[verifier::external_body]
fn random_id() -> (id: String) {
    uuid::Uuid::new_v4().to_string()
}

/// The made-up backend.
pub struct MockProvider {
    chats: Vec<UnifiedChat>,
    messages: Vec<UnifiedMessage>,
    sink: Option<EventSink>,
    auth_status: AuthStatus,
    chat_count: usize,
    message_interval_secs: u64,
    /// Every event that the backend handed to a sink so far.
    delivered: Ghost<Seq<EventView>>,
}

/// What the made-up backend gives to a background task: its chats and a sink,
/// to deliver a random incoming message whenever asked.
pub struct MockGenerator {
    chats: Vec<UnifiedChat>,
    sink: EventSink,
}

/// A random incoming message: of the chat at `chat_pick`, with the text at
/// `text_pick`, delivered, sent by the chat's name.
pub open spec fn incoming_message(
    chats: Seq<ChatView>,
    chat_pick: int,
    text_pick: int,
    id: Seq<char>,
    now: Timestamp,
) -> MessageView {
    MessageView {
        id: id,
        chat_id: chats[chat_pick].id,
        platform: Platform::Mock,
        sender: chats[chat_pick].name,
        content: ContentView::Text(mock_text_spec(text_pick)),
        timestamp: now,
        status: MessageStatus::Delivered,
        is_outgoing: false,
    }
}

/// Builds a random incoming message from what was drawn for it.
pub fn make_incoming(
    chats: &Vec<UnifiedChat>,
    chat_pick: usize,
    text_pick: usize,
    id: String,
    now: Timestamp,
) -> (msg: UnifiedMessage)
    requires
        chat_pick < chats.len(),
    ensures
        msg@ == incoming_message(chats.deep_view(), chat_pick as int, text_pick as int, id@, now),
{
    let chat = &chats[chat_pick];
    UnifiedMessage {
        id,
        chat_id: chat.id.clone(),
        platform: Platform::Mock,
        sender: chat.name.clone(),
        content: MessageContent::Text(String::from_str(mock_text(text_pick))),
        timestamp: now,
        status: MessageStatus::Delivered,
        is_outgoing: false,
    }
}

impl MockGenerator {
    /// The chats that the generator makes messages up for.
    pub closed spec fn chats_view(&self) -> Seq<ChatView> {
        self.chats.deep_view()
    }

    /// Delivers one random incoming message of one of the chats: the message
    /// that [`make_incoming`] builds from what was drawn. Returns whether
    /// there is a point in going on, which is what the queue says to the
    /// message: not once the queue is gone. Without chats nothing is drawn or
    /// delivered, and there is a point in going on.
    pub fn emit(&self) -> (go_on: bool)
        ensures
            self.chats_view().len() == 0 ==> go_on,
    {
        if self.chats.len() == 0 {
            return true;
        }
        let chat_pick = random_below(self.chats.len());
        let text_pick = random_below(MOCK_MESSAGE_COUNT);
        let msg = make_incoming(&self.chats, chat_pick, text_pick, random_id(), utc_now());
        self.sink.send(ProviderEvent::NewMessage(msg))
    }
}

/// The made-up chats of a backend asked for `count` chats.
pub fn generate_chats(count: usize) -> (chats: Vec<UnifiedChat>)
    ensures
        chats.deep_view() == mock_chats(count as int),
{
    let count = if count < CHAT_NAME_COUNT {
        count
    } else {
        CHAT_NAME_COUNT
    };
    let mut chats: Vec<UnifiedChat> = Vec::new();
    let mut i: usize = 0;
    while i < count
        invariant
            0 <= i <= count <= CHAT_NAME_COUNT,
            chats.len() == i,
            forall|k: int| 0 <= k < i ==> (#[trigger] chats.deep_view()[k]) == mock_chat(k),
        decreases count - i,
    {
        let number = decimal(i as u64);
        let ghost before = chats.deep_view();
        chats.push(
            UnifiedChat {
                id: joined("mock-chat-", number.as_str()),
                platform: Platform::Mock,
                name: String::from_str(chat_name(i)),
                display_name: None,
                last_message: None,
                unread_count: 0,
                is_group: i == 2 || i == 4,
            },
        );
        assert(chats.deep_view() =~= before.push(mock_chat(i as int)));
        i += 1;
    }
    assert(chats.deep_view() =~= mock_chats(count as int));
    chats
}

/// The made-up history of the given chats, with `now` as the present.
pub fn generate_seed_messages(chats: &Vec<UnifiedChat>, now: Timestamp) -> (messages: Vec<
    UnifiedMessage,
>)
    ensures
        messages.deep_view() == seed_messages(chats.deep_view(), chats.len() as int, now),
{
    let base_time = now.shifted(-HISTORY_SPAN_SECS);
    let mut all: Vec<UnifiedMessage> = Vec::new();
    assert(all.deep_view() =~= seed_messages(chats.deep_view(), 0, now));
    let mut chat_idx: usize = 0;
    while chat_idx < chats.len()
        invariant
            0 <= chat_idx <= chats.len(),
            base_time == now.shifted_spec((-HISTORY_SPAN_SECS) as i64),
            all.deep_view() == seed_messages(chats.deep_view(), chat_idx as int, now),
        decreases chats.len() - chat_idx,
    {
        let chat = &chats[chat_idx];
        let script = seed_script_of(chat_idx);
        let ghost done = all.deep_view();
        let ghost this = seed_messages_of(chat@, chat_idx as int, now);
        let mut j: usize = 0;
        while j < script.len()
            invariant
                0 <= j <= script.len() <= 7,
                script@.len() == seed_script(chat_idx as int).len(),
                forall|k: int|
                    0 <= k < script@.len() ==> script@[k] == seed_script(chat_idx as int)[k],
                base_time == now.shifted_spec((-HISTORY_SPAN_SECS) as i64),
                this == seed_messages_of(chat@, chat_idx as int, now),
                all.deep_view() == done + this.take(j as int),
            decreases script.len() - j,
        {
            let is_outgoing = j % 3 == 0;
            let sender = if is_outgoing {
                String::from_str("You")
            } else {
                chat.name.clone()
            };
            let mut id = joined("mock-seed-", decimal(chat_idx as u64).as_str());
            id.append("-");
            id.append(decimal(j as u64).as_str());
            let ghost before = all.deep_view();
            let msg = UnifiedMessage {
                id,
                chat_id: chat.id.clone(),
                platform: Platform::Mock,
                sender,
                content: MessageContent::Text(
                    String::from_str(mock_text(script[j] % MOCK_MESSAGE_COUNT)),
                ),
                timestamp: base_time.shifted((j as i64) * HISTORY_STEP_SECS),
                status: MessageStatus::Read,
                is_outgoing,
            };
            assert(msg@ == seed_message(chat@, chat_idx as int, j as int, now));
            all.push(msg);
            proof {
                assert(all.deep_view() =~= before.push(this[j as int]));
                assert(this.take(j + 1) =~= this.take(j as int).push(this[j as int]));
                assert(before.push(this[j as int]) =~= done + this.take(j + 1));
            }
            j += 1;
        }
        proof {
            assert(this.take(script.len() as int) =~= this);
            assert(chats.deep_view()[chat_idx as int] == chat@);
        }
        chat_idx += 1;
    }
    all
}

/// The events that a starting backend announces, in order.
pub fn bootstrap_events(chats: &Vec<UnifiedChat>, seeds: &Vec<UnifiedMessage>) -> (events: Vec<
    ProviderEvent,
>)
    ensures
        events.deep_view() == bootstrap(chats.deep_view(), seeds.deep_view()),
{
    let mut events: Vec<ProviderEvent> = Vec::new();
    events.push(ProviderEvent::AuthStatusChanged(Platform::Mock, AuthStatus::Authenticated));
    events.push(ProviderEvent::ChatsUpdated(clone_chats(chats)));
    let ghost head = events.deep_view();
    assert(head =~= seq![
        EventView::AuthStatusChanged(Platform::Mock, AuthStatus::Authenticated),
        EventView::ChatsUpdated(chats.deep_view()),
    ]);
    let mut i: usize = 0;
    while i < seeds.len()
        invariant
            0 <= i <= seeds.len(),
            events.deep_view() == head + seeds.deep_view().take(i as int).map_values(
                |m: MessageView| EventView::NewMessage(m),
            ),
        decreases seeds.len() - i,
    {
        let ghost before = events.deep_view();
        events.push(ProviderEvent::NewMessage(seeds[i].clone()));
        proof {
            assert(events.deep_view() =~= before.push(EventView::NewMessage(seeds[i as int]@)));
            assert(seeds.deep_view().take(i + 1) =~= seeds.deep_view().take(i as int).push(
                seeds[i as int]@,
            ));
            assert(events.deep_view() =~= head + seeds.deep_view().take(i + 1).map_values(
                |m: MessageView| EventView::NewMessage(m),
            ));
        }
        i += 1;
    }
    proof {
        assert(seeds.deep_view().take(seeds.len() as int) =~= seeds.deep_view());
    }
    events
}

impl MockProvider {
    /// A backend that will make up `chat_count` chats, and that asks for a
    /// random message every `message_interval_secs` seconds. It is not
    /// started yet.
    pub fn new(chat_count: usize, message_interval_secs: u64) -> (provider: Self)
        ensures
            !provider.is_running(),
            provider.serves() == Platform::Mock,
            provider.chats_view().len() == 0,
            provider.messages_view().len() == 0,
            provider.asked_chats() == chat_count,
            provider.interval_secs() == message_interval_secs,
            provider.auth_status_spec() == AuthStatus::NotAuthenticated,
            provider.delivered() == Seq::<EventView>::empty(),
    {
        MockProvider {
            chats: Vec::new(),
            messages: Vec::new(),
            sink: None,
            auth_status: AuthStatus::NotAuthenticated,
            chat_count,
            message_interval_secs,
            delivered: Ghost(Seq::empty()),
        }
    }

    /// Every event that the backend itself handed to its sink since it was
    /// made, in the order in which it handed them over. What a background
    /// task delivers through a generator is not among them.
    pub closed spec fn delivered(&self) -> Seq<EventView> {
        self.delivered@
    }

    /// The chats that the backend holds.
    pub closed spec fn chats_view(&self) -> Seq<ChatView> {
        self.chats.deep_view()
    }

    /// The messages that the backend holds: the made-up history and what was
    /// sent through it.
    pub closed spec fn messages_view(&self) -> Seq<MessageView> {
        self.messages.deep_view()
    }

    /// How many chats the backend was asked for.
    pub closed spec fn asked_chats(&self) -> usize {
        self.chat_count
    }

    /// How many seconds the backend lets pass between random messages.
    pub closed spec fn interval_secs(&self) -> u64 {
        self.message_interval_secs
    }

    /// The connection state of the backend.
    pub closed spec fn auth_status_spec(&self) -> AuthStatus {
        self.auth_status
    }

    /// How many seconds to let pass between random messages.
    pub fn message_interval_secs(&self) -> (secs: u64)
        ensures
            secs == self.interval_secs(),
    {
        self.message_interval_secs
    }

    /// What a background task needs to deliver random messages for this
    /// backend: the chats that the backend holds, and a sink of the queue
    /// that it was started with. There is none while the backend is not
    /// running.
    pub fn generator(&self) -> (generator: Option<MockGenerator>)
        ensures
            generator is Some <==> self.is_running(),
            generator matches Some(g) ==> g.chats_view() == self.chats_view(),
    {
        match &self.sink {
            Some(sink) => Some(MockGenerator { chats: clone_chats(&self.chats), sink: sink.clone() }),
            None => None,
        }
    }

    /// The message that sending hands back: the user's own, sent, of this
    /// backend.
    pub open spec fn outgoing_message(
        chat_id: Seq<char>,
        content: ContentView,
        id: Seq<char>,
        now: Timestamp,
    ) -> MessageView {
        MessageView {
            id: id,
            chat_id: chat_id,
            platform: Platform::Mock,
            sender: "You"@,
            content: content,
            timestamp: now,
            status: MessageStatus::Sent,
            is_outgoing: true,
        }
    }

    /// Builds the message that sending hands back.
    pub fn make_outgoing(
        chat_id: &str,
        content: MessageContent,
        id: String,
        now: Timestamp,
    ) -> (msg: UnifiedMessage)
        ensures
            msg@ == Self::outgoing_message(chat_id@, content@, id@, now),
    {
        UnifiedMessage {
            id,
            chat_id: String::from_str(chat_id),
            platform: Platform::Mock,
            sender: String::from_str("You"),
            content,
            timestamp: now,
            status: MessageStatus::Sent,
            is_outgoing: true,
        }
    }
}

impl MessagingProvider for MockProvider {
    closed spec fn serves(&self) -> Platform {
        Platform::Mock
    }

    closed spec fn is_running(&self) -> bool {
        self.sink is Some
    }

    /// Announces the connection, the made-up chats and their history through
    /// the sink, in that order, and keeps both. It always succeeds.
    fn start(&mut self, sink: EventSink) -> (started: Result<(), ProviderError>)
        ensures
            started is Ok,
            final(self).chats_view() == mock_chats(old(self).asked_chats() as int),
            exists|now: Timestamp|
                final(self).messages_view() == #[trigger] seed_messages(
                    final(self).chats_view(),
                    final(self).chats_view().len() as int,
                    now,
                ),
            final(self).delivered() == old(self).delivered() + bootstrap(
                final(self).chats_view(),
                final(self).messages_view(),
            ),
            final(self).auth_status_spec() == AuthStatus::Authenticated,
            final(self).asked_chats() == old(self).asked_chats(),
            final(self).interval_secs() == old(self).interval_secs(),
    {
        self.auth_status = AuthStatus::Authenticated;
        let now = utc_now();
        let chats = generate_chats(self.chat_count);
        let seeds = generate_seed_messages(&chats, now);
        let events = bootstrap_events(&chats, &seeds);
        let ghost all = events.deep_view();
        let ghost mut handed: Seq<EventView> = Seq::empty();
        for event in it: events
            invariant
                it.seq().len() == all.len(),
                forall|k: int| 0 <= k < all.len() ==> (#[trigger] it.seq()[k])@ == all[k],
                handed == all.take(it.index() as int),
        {
            proof {
                handed = handed.push(event@);
                assert(handed =~= all.take(it.index() + 1));
            }
            let _ = sink.send(event);
        }
        proof {
            assert(all.take(all.len() as int) =~= all);
            self.delivered@ = self.delivered@ + handed;
        }
        self.chats = chats;
        self.messages = seeds;
        self.sink = Some(sink);
        assert(self.messages_view() == seed_messages(
            self.chats_view(),
            self.chats_view().len() as int,
            now,
        ));
        Ok(())
    }

    /// Stops delivering and sending.
    fn stop(&mut self) -> (stopped: Result<(), ProviderError>)
        ensures
            stopped is Ok,
            final(self).chats_view() == old(self).chats_view(),
            final(self).messages_view() == old(self).messages_view(),
            final(self).auth_status_spec() == AuthStatus::NotAuthenticated,
            final(self).asked_chats() == old(self).asked_chats(),
            final(self).interval_secs() == old(self).interval_secs(),
            final(self).delivered() == old(self).delivered(),
    {
        self.sink = None;
        self.auth_status = AuthStatus::NotAuthenticated;
        Ok(())
    }

    /// Makes up the sent message, keeps it, and hands it to the sink as an
    /// event as well. A backend that is not running refuses.
    fn send_message(&mut self, chat_id: &str, content: MessageContent) -> (sent: Result<
        UnifiedMessage,
        ProviderError,
    >)
        ensures
            sent is Ok <==> old(self).is_running(),
            sent matches Err(e) ==> e is NotConnected && final(self).messages_view() == old(
                self,
            ).messages_view() && final(self).delivered() == old(self).delivered(),
            sent matches Ok(msg) ==> final(self).messages_view() == old(self).messages_view().push(
                msg@,
            ) && msg@ == Self::outgoing_message(chat_id@, content@, msg@.id, msg@.timestamp)
                && final(self).delivered() == old(self).delivered().push(
                EventView::NewMessage(msg@),
            ),
            final(self).chats_view() == old(self).chats_view(),
            final(self).auth_status_spec() == old(self).auth_status_spec(),
            final(self).asked_chats() == old(self).asked_chats(),
            final(self).interval_secs() == old(self).interval_secs(),
    {
        if self.sink.is_none() {
            return Err(ProviderError::NotConnected);
        }
        let msg = Self::make_outgoing(chat_id, content, random_id(), utc_now());
        let ghost before = self.messages.deep_view();
        self.messages.push(msg.clone());
        assert(self.messages.deep_view() =~= before.push(msg@));
        match &self.sink {
            Some(sink) => {
                let _ = sink.send(ProviderEvent::NewMessage(msg.clone()));
            },
            None => {},
        }
        proof {
            self.delivered@ = self.delivered@.push(EventView::NewMessage(msg@));
        }
        Ok(msg)
    }

    fn get_chats(&self) -> (chats: Result<Vec<UnifiedChat>, ProviderError>)
        ensures
            chats matches Ok(list) && list.deep_view() == self.chats_view(),
    {
        Ok(clone_chats(&self.chats))
    }

    /// The messages that the backend holds of a chat, in the order in which
    /// it came by them.
    fn get_messages(&self, chat_id: &str) -> (messages: Result<Vec<UnifiedMessage>, ProviderError>)
        ensures
            messages matches Ok(list) && list.deep_view() == crate::storage::messages::chat_messages(
                self.messages_view(),
                chat_id@,
            ),
    {
        let mut out: Vec<UnifiedMessage> = Vec::new();
        let mut i: usize = 0;
        assert(out.deep_view() =~= crate::storage::messages::chat_messages(
            self.messages.deep_view().take(0),
            chat_id@,
        ));
        while i < self.messages.len()
            invariant
                0 <= i <= self.messages.len(),
                out.deep_view() == crate::storage::messages::chat_messages(
                    self.messages.deep_view().take(i as int),
                    chat_id@,
                ),
            decreases self.messages.len() - i,
        {
            let msg = &self.messages[i];
            proof {
                let next = self.messages.deep_view().take(i + 1);
                assert(next.drop_last() =~= self.messages.deep_view().take(i as int));
                assert(next.last() == msg@);
            }
            if same_text(msg.chat_id.as_str(), chat_id) {
                let ghost before = out.deep_view();
                out.push(msg.clone());
                assert(out.deep_view() =~= before.push(msg@));
            }
            i += 1;
        }
        proof {
            assert(self.messages.deep_view().take(self.messages.len() as int)
                =~= self.messages.deep_view());
        }
        Ok(out)
    }

    fn name(&self) -> (name: String)
        ensures
            name@ == "Mock"@,
    {
        String::from_str("Mock")
    }

    fn platform(&self) -> (platform: Platform) {
        Platform::Mock
    }

    fn auth_status(&self) -> (status: AuthStatus)
        ensures
            status == self.auth_status_spec(),
    {
        self.auth_status
    }
}

} // verus!
