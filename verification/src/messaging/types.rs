//! The data of the unified timeline: platforms, messages and chats, each
//! with its mathematical model.

use vstd::prelude::*;
use vstd::string::StringExecFns;

use crate::text::same_text;

verus! {

/// The messaging backend a chat or message belongs to.
#[derive(Debug, Clone, Copy, PartialEq, Eq, Hash, Structural)]
pub enum Platform {
    WhatsApp,
    Telegram,
    Slack,
    Mock,
}

impl Platform {
    /// The short tag shown next to a chat: `WA`, `TG`, `SL` or `Mock`.
    pub open spec fn label_spec(self) -> Seq<char> {
        match self {
            Platform::WhatsApp => "WA"@,
            Platform::Telegram => "TG"@,
            Platform::Slack => "SL"@,
            Platform::Mock => "Mock"@,
        }
    }

    /// The full name under which the platform is persisted.
    pub open spec fn name_spec(self) -> Seq<char> {
        match self {
            Platform::WhatsApp => "WhatsApp"@,
            Platform::Telegram => "Telegram"@,
            Platform::Slack => "Slack"@,
            Platform::Mock => "Mock"@,
        }
    }

    pub fn label(&self) -> (tag: String)
        ensures
            tag@ == self.label_spec(),
    {
        match self {
            Platform::WhatsApp => String::from_str("WA"),
            Platform::Telegram => String::from_str("TG"),
            Platform::Slack => String::from_str("SL"),
            Platform::Mock => String::from_str("Mock"),
        }
    }

    pub fn name(&self) -> (name: String)
        ensures
            name@ == self.name_spec(),
    {
        match self {
            Platform::WhatsApp => String::from_str("WhatsApp"),
            Platform::Telegram => String::from_str("Telegram"),
            Platform::Slack => String::from_str("Slack"),
            Platform::Mock => String::from_str("Mock"),
        }
    }
}

/// Delivery state of a message; the only part of a message that changes
/// after it was created.
#[derive(Debug, Clone, Copy, PartialEq, Eq, Structural)]
pub enum MessageStatus {
    Sending,
    Sent,
    Delivered,
    Read,
    Failed,
}

impl MessageStatus {
    /// The name under which the status is persisted.
    pub open spec fn name_spec(self) -> Seq<char> {
        match self {
            MessageStatus::Sending => "Sending"@,
            MessageStatus::Sent => "Sent"@,
            MessageStatus::Delivered => "Delivered"@,
            MessageStatus::Read => "Read"@,
            MessageStatus::Failed => "Failed"@,
        }
    }

    pub fn name(&self) -> (name: String)
        ensures
            name@ == self.name_spec(),
    {
        match self {
            MessageStatus::Sending => String::from_str("Sending"),
            MessageStatus::Sent => String::from_str("Sent"),
            MessageStatus::Delivered => String::from_str("Delivered"),
            MessageStatus::Read => String::from_str("Read"),
            MessageStatus::Failed => String::from_str("Failed"),
        }
    }
}

/// Connection state of one backend.
#[derive(Debug, Clone, Copy, PartialEq, Eq, Structural)]
pub enum AuthStatus {
    NotAuthenticated,
    Authenticating,
    Authenticated,
    Failed,
}

/// A point in time: whole seconds since the Unix epoch and the nanoseconds
/// past that second.
#[derive(Debug, Clone, Copy, PartialEq, Eq, Structural)]
pub struct Timestamp {
    pub secs: i64,
    pub nanos: u32,
}

impl Timestamp {
    /// Chronological order: by seconds, then by nanoseconds.
    pub open spec fn before_spec(self, other: Timestamp) -> bool {
        self.secs < other.secs || (self.secs == other.secs && self.nanos < other.nanos)
    }

    pub fn before(&self, other: &Timestamp) -> (earlier: bool)
        ensures
            earlier == self.before_spec(*other),
    {
        self.secs < other.secs || (self.secs == other.secs && self.nanos < other.nanos)
    }
}

/// Mathematical model of [`MessageContent`].
pub enum ContentView {
    Text(Seq<char>),
    Image { url: Seq<char>, caption: Option<Seq<char>> },
    File { url: Seq<char>, filename: Seq<char> },
    System(Seq<char>),
}

impl ContentView {
    /// The plain-text preview of a content value: the text itself, the
    /// caption of an image (or `[Image]` without one), the name of a file.
    pub open spec fn preview(self) -> Seq<char> {
        match self {
            ContentView::Text(t) => t,
            ContentView::Image { url, caption } => match caption {
                Some(c) => c,
                None => "[Image]"@,
            },
            ContentView::File { url, filename } => filename,
            ContentView::System(t) => t,
        }
    }
}

/// What a message carries.
#[derive(Debug)]
pub enum MessageContent {
    Text(String),
    Image { url: String, caption: Option<String> },
    File { url: String, filename: String },
    System(String),
}

impl View for MessageContent {
    type V = ContentView;

    open spec fn view(&self) -> ContentView {
        match self {
            MessageContent::Text(t) => ContentView::Text(t@),
            MessageContent::Image { url, caption } => ContentView::Image {
                url: url@,
                caption: match caption {
                    Some(c) => Some(c@),
                    None => None,
                },
            },
            MessageContent::File { url, filename } => ContentView::File {
                url: url@,
                filename: filename@,
            },
            MessageContent::System(t) => ContentView::System(t@),
        }
    }
}

impl DeepView for MessageContent {
    type V = ContentView;

    open spec fn deep_view(&self) -> ContentView {
        self@
    }
}

impl Clone for MessageContent {
    fn clone(&self) -> (copy: Self)
        ensures
            copy == *self,
    {
        match self {
            MessageContent::Text(t) => MessageContent::Text(t.clone()),
            MessageContent::Image { url, caption } => MessageContent::Image {
                url: url.clone(),
                caption: clone_opt_string(caption),
            },
            MessageContent::File { url, filename } => MessageContent::File {
                url: url.clone(),
                filename: filename.clone(),
            },
            MessageContent::System(t) => MessageContent::System(t.clone()),
        }
    }
}

impl PartialEq for MessageContent {
    fn eq(&self, other: &Self) -> (same: bool) {
        match (self, other) {
            (MessageContent::Text(a), MessageContent::Text(b)) => same_text(
                a.as_str(),
                b.as_str(),
            ),
            (
                MessageContent::Image { url: a, caption: c },
                MessageContent::Image { url: b, caption: d },
            ) => same_text(a.as_str(), b.as_str()) && same_opt_text(c, d),
            (
                MessageContent::File { url: a, filename: c },
                MessageContent::File { url: b, filename: d },
            ) => same_text(a.as_str(), b.as_str()) && same_text(c.as_str(), d.as_str()),
            (MessageContent::System(a), MessageContent::System(b)) => same_text(
                a.as_str(),
                b.as_str(),
            ),
            _ => false,
        }
    }
}

impl vstd::std_specs::cmp::PartialEqSpecImpl for MessageContent {
    open spec fn obeys_eq_spec() -> bool {
        true
    }

    open spec fn eq_spec(&self, other: &Self) -> bool {
        self@ == other@
    }
}

impl MessageContent {
    /// The plain-text preview of this content.
    pub fn as_text(&self) -> (text: &str)
        ensures
            text@ == self@.preview(),
    {
        match self {
            MessageContent::Text(t) => t.as_str(),
            MessageContent::Image { url: _, caption } => match caption {
                Some(c) => c.as_str(),
                None => "[Image]",
            },
            MessageContent::File { url: _, filename } => filename.as_str(),
            MessageContent::System(t) => t.as_str(),
        }
    }
}

/// Copies an optional string.
pub fn clone_opt_string(s: &Option<String>) -> (copy: Option<String>)
    ensures
        copy == *s,
{
    match s {
        Some(text) => Some(text.clone()),
        None => None,
    }
}

/// Whether two optional strings hold the same characters, or both none.
pub fn same_opt_text(a: &Option<String>, b: &Option<String>) -> (same: bool)
    ensures
        same == (opt_chars(*a) == opt_chars(*b)),
{
    match (a, b) {
        (Some(x), Some(y)) => same_text(x.as_str(), y.as_str()),
        (None, None) => true,
        _ => false,
    }
}

/// The characters of an optional string.
pub open spec fn opt_chars(s: Option<String>) -> Option<Seq<char>> {
    match s {
        Some(text) => Some(text@),
        None => None,
    }
}

/// Mathematical model of [`Contact`].
pub struct ContactView {
    pub id: Seq<char>,
    pub name: Seq<char>,
    pub platform: Platform,
}

/// A person known to one backend.
#[derive(Debug)]
pub struct Contact {
    pub id: String,
    pub name: String,
    pub platform: Platform,
}

impl View for Contact {
    type V = ContactView;

    open spec fn view(&self) -> ContactView {
        ContactView { id: self.id@, name: self.name@, platform: self.platform }
    }
}

impl Clone for Contact {
    fn clone(&self) -> (copy: Self)
        ensures
            copy == *self,
    {
        Contact { id: self.id.clone(), name: self.name.clone(), platform: self.platform }
    }
}

/// Mathematical model of [`UnifiedMessage`].
pub struct MessageView {
    pub id: Seq<char>,
    pub chat_id: Seq<char>,
    pub platform: Platform,
    pub sender: Seq<char>,
    pub content: ContentView,
    pub timestamp: Timestamp,
    pub status: MessageStatus,
    pub is_outgoing: bool,
}

/// One message of the unified timeline.
#[derive(Debug)]
pub struct UnifiedMessage {
    pub id: String,
    pub chat_id: String,
    pub platform: Platform,
    pub sender: String,
    pub content: MessageContent,
    pub timestamp: Timestamp,
    pub status: MessageStatus,
    pub is_outgoing: bool,
}

impl View for UnifiedMessage {
    type V = MessageView;

    open spec fn view(&self) -> MessageView {
        MessageView {
            id: self.id@,
            chat_id: self.chat_id@,
            platform: self.platform,
            sender: self.sender@,
            content: self.content@,
            timestamp: self.timestamp,
            status: self.status,
            is_outgoing: self.is_outgoing,
        }
    }
}

impl DeepView for UnifiedMessage {
    type V = MessageView;

    open spec fn deep_view(&self) -> MessageView {
        self@
    }
}

impl PartialEq for UnifiedMessage {
    fn eq(&self, other: &Self) -> (same: bool) {
        same_text(self.id.as_str(), other.id.as_str()) && same_text(
            self.chat_id.as_str(),
            other.chat_id.as_str(),
        ) && self.platform == other.platform && same_text(
            self.sender.as_str(),
            other.sender.as_str(),
        ) && self.content == other.content && self.timestamp == other.timestamp && self.status
            == other.status && self.is_outgoing == other.is_outgoing
    }
}

impl vstd::std_specs::cmp::PartialEqSpecImpl for UnifiedMessage {
    open spec fn obeys_eq_spec() -> bool {
        true
    }

    open spec fn eq_spec(&self, other: &Self) -> bool {
        self@ == other@
    }
}

impl Clone for UnifiedMessage {
    fn clone(&self) -> (copy: Self)
        ensures
            copy == *self,
    {
        UnifiedMessage {
            id: self.id.clone(),
            chat_id: self.chat_id.clone(),
            platform: self.platform,
            sender: self.sender.clone(),
            content: self.content.clone(),
            timestamp: self.timestamp,
            status: self.status,
            is_outgoing: self.is_outgoing,
        }
    }
}

/// Mathematical model of [`UnifiedChat`].
pub struct ChatView {
    pub id: Seq<char>,
    pub platform: Platform,
    pub name: Seq<char>,
    pub display_name: Option<Seq<char>>,
    pub last_message: Option<Seq<char>>,
    pub unread_count: u32,
    pub is_group: bool,
}

impl ChatView {
    /// The name a chat is shown under: the user's own name for it where one
    /// was given, else the name the backend supplied.
    pub open spec fn shown_name(self) -> Seq<char> {
        match self.display_name {
            Some(n) => n,
            None => self.name,
        }
    }
}

/// One conversation of the unified timeline.
#[derive(Debug)]
pub struct UnifiedChat {
    pub id: String,
    pub platform: Platform,
    pub name: String,
    pub display_name: Option<String>,
    pub last_message: Option<String>,
    pub unread_count: u32,
    pub is_group: bool,
}

impl View for UnifiedChat {
    type V = ChatView;

    open spec fn view(&self) -> ChatView {
        ChatView {
            id: self.id@,
            platform: self.platform,
            name: self.name@,
            display_name: opt_chars(self.display_name),
            last_message: opt_chars(self.last_message),
            unread_count: self.unread_count,
            is_group: self.is_group,
        }
    }
}

impl DeepView for UnifiedChat {
    type V = ChatView;

    open spec fn deep_view(&self) -> ChatView {
        self@
    }
}

impl PartialEq for UnifiedChat {
    fn eq(&self, other: &Self) -> (same: bool) {
        same_text(self.id.as_str(), other.id.as_str()) && self.platform == other.platform
            && same_text(self.name.as_str(), other.name.as_str()) && same_opt_text(
            &self.display_name,
            &other.display_name,
        ) && same_opt_text(&self.last_message, &other.last_message) && self.unread_count
            == other.unread_count && self.is_group == other.is_group
    }
}

impl vstd::std_specs::cmp::PartialEqSpecImpl for UnifiedChat {
    open spec fn obeys_eq_spec() -> bool {
        true
    }

    open spec fn eq_spec(&self, other: &Self) -> bool {
        self@ == other@
    }
}

impl Clone for UnifiedChat {
    fn clone(&self) -> (copy: Self)
        ensures
            copy == *self,
    {
        UnifiedChat {
            id: self.id.clone(),
            platform: self.platform,
            name: self.name.clone(),
            display_name: clone_opt_string(&self.display_name),
            last_message: clone_opt_string(&self.last_message),
            unread_count: self.unread_count,
            is_group: self.is_group,
        }
    }
}

impl UnifiedChat {
    /// The name this chat is shown under.
    pub fn shown_name(&self) -> (name: &str)
        ensures
            name@ == self@.shown_name(),
    {
        match &self.display_name {
            Some(n) => n.as_str(),
            None => self.name.as_str(),
        }
    }
}

} // verus!
