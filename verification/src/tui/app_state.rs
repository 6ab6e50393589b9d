//! The state that the screen is drawn from: the chats, the messages of the
//! chat on screen, the selection, the input line and the settings dialog.

use vstd::prelude::*;
use vstd::string::{StrSliceExecFns, StringExecFns, StringSliceAdditionalSpecFns};
use vstd::utf8::{
    decode_utf8, decode_utf8_split, encode_utf8, encode_utf8_decode_utf8, encode_utf8_valid_utf8,
    is_char_boundary,
};

use crate::config::settings::AppConfig;
use crate::messaging::types::{
    opt_chars, ChatView, MessageView, UnifiedChat, UnifiedMessage,
};
use crate::text::{char_to_string, same_text};

verus! {

/// What the keyboard is used for at the moment.
#[derive(Debug, Clone, Copy, PartialEq, Eq, Structural)]
pub enum InputMode {
    Normal,
    Editing,
    Settings,
    Renaming,
}

/// Which setting a line of the settings dialog stands for.
#[derive(Debug, Clone, Copy, PartialEq, Eq, Structural)]
pub enum SettingsKey {
    MockEnabled,
    WhatsAppEnabled,
    LogLevel,
}

/// Mathematical model of [`SettingsValue`].
pub enum SettingsValueView {
    Bool(bool),
    Choice(Seq<Seq<char>>, usize),
}

/// The value of a setting: a switch, or one of several choices.
#[derive(Debug)]
pub enum SettingsValue {
    Bool(bool),
    Choice(Vec<String>, usize),
}

impl View for SettingsValue {
    type V = SettingsValueView;

    open spec fn view(&self) -> SettingsValueView {
        match self {
            SettingsValue::Bool(b) => SettingsValueView::Bool(*b),
            SettingsValue::Choice(choices, index) => SettingsValueView::Choice(
                choices.deep_view(),
                *index,
            ),
        }
    }
}

impl SettingsValueView {
    /// The value after a toggle: a switch flips, a choice moves on to the
    /// next one and from the last back to the first.
    pub open spec fn toggled(self) -> SettingsValueView {
        match self {
            SettingsValueView::Bool(b) => SettingsValueView::Bool(!b),
            SettingsValueView::Choice(choices, index) => if choices.len() > 0 && index
                < usize::MAX {
                SettingsValueView::Choice(choices, ((index + 1) % (choices.len() as int)) as usize)
            } else {
                self
            },
        }
    }
}

/// Mathematical model of [`SettingsItem`].
pub struct SettingsItemView {
    pub key: SettingsKey,
    pub label: Seq<char>,
    pub value: SettingsValueView,
}

/// One line of the settings dialog.
#[derive(Debug)]
pub struct SettingsItem {
    pub key: SettingsKey,
    pub label: String,
    pub value: SettingsValue,
}

impl View for SettingsItem {
    type V = SettingsItemView;

    open spec fn view(&self) -> SettingsItemView {
        SettingsItemView { key: self.key, label: self.label@, value: self.value@ }
    }
}

impl DeepView for SettingsItem {
    type V = SettingsItemView;

    open spec fn deep_view(&self) -> SettingsItemView {
        self@
    }
}

/// Mathematical model of [`SettingsState`].
pub struct SettingsStateView {
    pub items: Seq<SettingsItemView>,
    pub selected: usize,
    pub dirty: bool,
}

/// The settings dialog while it is open.
#[derive(Debug)]
pub struct SettingsState {
    pub items: Vec<SettingsItem>,
    pub selected: usize,
    pub dirty: bool,
}

impl View for SettingsState {
    type V = SettingsStateView;

    open spec fn view(&self) -> SettingsStateView {
        SettingsStateView {
            items: self.items.deep_view(),
            selected: self.selected,
            dirty: self.dirty,
        }
    }
}

/// The log levels that the settings dialog offers, in its order.
pub open spec fn log_levels() -> Seq<Seq<char>> {
    seq!["trace"@, "debug"@, "info"@, "warn"@, "error"@]
}

/// Index of the first of the choices that is `level`, or the number of
/// choices where none is.
pub open spec fn level_position(choices: Seq<Seq<char>>, level: Seq<char>) -> int
    decreases choices.len(),
{
    if choices.len() == 0 {
        0
    } else {
        let earlier = level_position(choices.drop_last(), level);
        if earlier < choices.len() - 1 {
            earlier
        } else if choices.last() == level {
            choices.len() - 1
        } else {
            choices.len() as int
        }
    }
}

/// The choice that the dialog opens with for a configured log level: that
/// level, or `info` for a level it does not offer.
pub open spec fn level_choice(level: Seq<char>) -> usize {
    if level_position(log_levels(), level) < log_levels().len() {
        level_position(log_levels(), level) as usize
    } else {
        2
    }
}

/// The dialog as it opens for a configuration.
pub open spec fn settings_for(
    mock_enabled: bool,
    whatsapp_enabled: bool,
    log_level: Seq<char>,
) -> SettingsStateView {
    SettingsStateView {
        items: seq![
            SettingsItemView {
                key: SettingsKey::MockEnabled,
                label: "Mock Provider"@,
                value: SettingsValueView::Bool(mock_enabled),
            },
            SettingsItemView {
                key: SettingsKey::WhatsAppEnabled,
                label: "WhatsApp"@,
                value: SettingsValueView::Bool(whatsapp_enabled),
            },
            SettingsItemView {
                key: SettingsKey::LogLevel,
                label: "Log Level"@,
                value: SettingsValueView::Choice(log_levels(), level_choice(log_level)),
            },
        ],
        selected: 0,
        dirty: false,
    }
}

/// What the dialog changes of a configuration.
pub struct SettingsOutcome {
    pub mock_enabled: bool,
    pub whatsapp_enabled: bool,
    pub log_level: Seq<char>,
}

/// The outcome after one line of the dialog was applied: a switch sets the
/// provider it stands for, a choice within its range sets the log level, and
/// a line whose value does not fit its key changes nothing.
pub open spec fn applied_item(before: SettingsOutcome, item: SettingsItemView) -> SettingsOutcome {
    match (item.key, item.value) {
        (SettingsKey::MockEnabled, SettingsValueView::Bool(v)) => SettingsOutcome {
            mock_enabled: v,
            ..before
        },
        (SettingsKey::WhatsAppEnabled, SettingsValueView::Bool(v)) => SettingsOutcome {
            whatsapp_enabled: v,
            ..before
        },
        (SettingsKey::LogLevel, SettingsValueView::Choice(choices, index)) => if index
            < choices.len() {
            SettingsOutcome { log_level: choices[index as int], ..before }
        } else {
            before
        },
        _ => before,
    }
}

/// The outcome after the lines of the dialog were applied in order.
pub open spec fn applied_items(
    before: SettingsOutcome,
    items: Seq<SettingsItemView>,
) -> SettingsOutcome
    decreases items.len(),
{
    if items.len() == 0 {
        before
    } else {
        applied_item(applied_items(before, items.drop_last()), items.last())
    }
}

/// What the dialog can change of a configuration, as it stands.
pub open spec fn outcome_of(config: AppConfig) -> SettingsOutcome {
    SettingsOutcome {
        mock_enabled: config.mock_provider.enabled,
        whatsapp_enabled: config.whatsapp.enabled,
        log_level: config.general.log_level@,
    }
}

impl SettingsState {
    /// Opens the dialog on the values of a configuration.
    pub fn from_config(config: &AppConfig) -> (state: Self)
        ensures
            state@ == settings_for(
                config.mock_provider.enabled,
                config.whatsapp.enabled,
                config.general.log_level@,
            ),
    {
        let mut log_choices: Vec<String> = Vec::new();
        log_choices.push(String::from_str("trace"));
        log_choices.push(String::from_str("debug"));
        log_choices.push(String::from_str("info"));
        log_choices.push(String::from_str("warn"));
        log_choices.push(String::from_str("error"));
        assert(log_choices.deep_view() =~= log_levels());
        let mut log_idx: usize = 0;
        while log_idx < log_choices.len() && !same_text(
            log_choices[log_idx].as_str(),
            config.general.log_level.as_str(),
        )
            invariant
                0 <= log_idx <= log_choices.len(),
                log_choices.deep_view() == log_levels(),
                forall|j: int|
                    0 <= j < log_idx ==> #[trigger] log_levels()[j] != config.general.log_level@,
            decreases log_choices.len() - log_idx,
        {
            log_idx += 1;
        }
        proof {
            lemma_level_position_is(log_levels(), config.general.log_level@, log_idx as int);
        }
        if log_idx >= log_choices.len() {
            log_idx = 2;
        }
        let mut items: Vec<SettingsItem> = Vec::new();
        items.push(
            SettingsItem {
                key: SettingsKey::MockEnabled,
                label: String::from_str("Mock Provider"),
                value: SettingsValue::Bool(config.mock_provider.enabled),
            },
        );
        items.push(
            SettingsItem {
                key: SettingsKey::WhatsAppEnabled,
                label: String::from_str("WhatsApp"),
                value: SettingsValue::Bool(config.whatsapp.enabled),
            },
        );
        items.push(
            SettingsItem {
                key: SettingsKey::LogLevel,
                label: String::from_str("Log Level"),
                value: SettingsValue::Choice(log_choices, log_idx),
            },
        );
        let state = SettingsState { items, selected: 0, dirty: false };
        assert(state@.items =~= settings_for(
            config.mock_provider.enabled,
            config.whatsapp.enabled,
            config.general.log_level@,
        ).items);
        state
    }

    /// Moves the selection one line down; on the last line it stays.
    pub fn select_next(&mut self)
        ensures
            final(self)@ == (SettingsStateView {
                selected: if old(self).selected + 1 < old(self).items.len() {
                    (old(self).selected + 1) as usize
                } else {
                    old(self).selected
                },
                ..old(self)@
            }),
    {
        if self.selected < usize::MAX && self.selected + 1 < self.items.len() {
            self.selected += 1;
        }
    }

    /// Moves the selection one line up; on the first line it stays.
    pub fn select_prev(&mut self)
        ensures
            final(self)@ == (SettingsStateView {
                selected: if old(self).selected > 0 {
                    (old(self).selected - 1) as usize
                } else {
                    old(self).selected
                },
                ..old(self)@
            }),
    {
        if self.selected > 0 {
            self.selected -= 1;
        }
    }

    /// Toggles the selected line and marks the dialog as changed. Without a
    /// selected line nothing happens.
    pub fn toggle_selected(&mut self)
        ensures
            old(self).selected < old(self).items.len() ==> final(self)@ == (SettingsStateView {
                items: old(self)@.items.update(
                    old(self).selected as int,
                    SettingsItemView {
                        value: old(self)@.items[old(self).selected as int].value.toggled(),
                        ..old(self)@.items[old(self).selected as int]
                    },
                ),
                dirty: true,
                ..old(self)@
            }),
            old(self).selected >= old(self).items.len() ==> final(self)@ == old(self)@,
    {
        let at = self.selected;
        if at < self.items.len() {
            let ghost before = self.items.deep_view();
            let item = &mut self.items[at];
            match &mut item.value {
                SettingsValue::Bool(b) => {
                    *b = !*b;
                },
                SettingsValue::Choice(choices, index) => {
                    if choices.len() > 0 && *index < usize::MAX {
                        *index = (*index + 1) % choices.len();
                    }
                },
            }
            self.dirty = true;
            assert(self.items.deep_view() =~= before.update(
                at as int,
                SettingsItemView { value: before[at as int].value.toggled(), ..before[at as int] },
            ));
        }
    }

    /// Writes the values of the dialog into a configuration, line by line.
    pub fn apply_to_config(&self, config: &mut AppConfig)
        ensures
            outcome_of(*final(config)) == applied_items(outcome_of(*old(config)), self@.items),
            final(config).tui == old(config).tui,
            final(config).general.data_dir == old(config).general.data_dir,
            final(config).mock_provider.chat_count == old(config).mock_provider.chat_count,
            final(config).mock_provider.message_interval_secs == old(
                config,
            ).mock_provider.message_interval_secs,
            final(config).whatsapp.phone_number == old(config).whatsapp.phone_number,
    {
        let mut i: usize = 0;
        while i < self.items.len()
            invariant
                0 <= i <= self.items.len(),
                outcome_of(*config) == applied_items(
                    outcome_of(*old(config)),
                    self@.items.take(i as int),
                ),
                config.tui == old(config).tui,
                config.general.data_dir == old(config).general.data_dir,
                config.mock_provider.chat_count == old(config).mock_provider.chat_count,
                config.mock_provider.message_interval_secs == old(
                    config,
                ).mock_provider.message_interval_secs,
                config.whatsapp.phone_number == old(config).whatsapp.phone_number,
            decreases self.items.len() - i,
        {
            let item = &self.items[i];
            proof {
                let next = self@.items.take(i + 1);
                assert(next.drop_last() =~= self@.items.take(i as int));
                assert(next.last() == item@);
            }
            match &item.value {
                SettingsValue::Bool(v) => {
                    match item.key {
                        SettingsKey::MockEnabled => {
                            config.mock_provider.enabled = *v;
                        },
                        SettingsKey::WhatsAppEnabled => {
                            config.whatsapp.enabled = *v;
                        },
                        SettingsKey::LogLevel => {},
                    }
                },
                SettingsValue::Choice(choices, index) => {
                    match item.key {
                        SettingsKey::LogLevel => {
                            if *index < choices.len() {
                                config.general.log_level = choices[*index].clone();
                            }
                        },
                        _ => {},
                    }
                },
            }
            i += 1;
        }
        proof {
            assert(self@.items.take(self.items.len() as int) =~= self@.items);
        }
    }
}

/// `level_position` is the first index that holds the level.
pub proof fn lemma_level_position(choices: Seq<Seq<char>>, level: Seq<char>)
    ensures
        0 <= level_position(choices, level) <= choices.len(),
        level_position(choices, level) < choices.len() ==> choices[level_position(choices, level)]
            == level,
        forall|j: int| 0 <= j < level_position(choices, level) ==> #[trigger] choices[j] != level,
    decreases choices.len(),
{
    if choices.len() > 0 {
        lemma_level_position(choices.drop_last(), level);
        let p = level_position(choices.drop_last(), level);
        assert forall|j: int| 0 <= j < level_position(choices, level) implies #[trigger] choices[j]
            != level by {
            if j < choices.len() - 1 {
                assert(choices.drop_last()[j] == choices[j]);
            }
        }
        if p < choices.len() - 1 {
            assert(choices.drop_last()[p] == choices[p]);
        }
    }
}

/// An index that holds the level, with none before it, is the `level_position`.
pub proof fn lemma_level_position_is(choices: Seq<Seq<char>>, level: Seq<char>, at: int)
    requires
        0 <= at <= choices.len(),
        at < choices.len() ==> choices[at] == level,
        forall|j: int| 0 <= j < at ==> #[trigger] choices[j] != level,
    ensures
        level_position(choices, level) == at,
{
    lemma_level_position(choices, level);
}

/// Which of the two panels has the focus.
#[derive(Debug, Clone, Copy, PartialEq, Eq, Structural)]
pub enum ActivePanel {
    ChatList,
    MessageView,
}

/// Which line of the list of chats is selected, and from which line on the
/// list is shown.
#[derive(Debug, Clone, Copy, PartialEq, Eq, Structural)]
pub struct ListSelection {
    pub selected: Option<usize>,
    pub offset: usize,
}

impl ListSelection {
    pub fn selected(&self) -> (index: Option<usize>)
        ensures
            index == self.selected,
    {
        self.selected
    }

    /// Selects a line, or none. With no line selected the list is shown
    /// from its top.
    pub fn select(&mut self, index: Option<usize>)
        ensures
            final(self).selected == index,
            final(self).offset == (if index is None {
                0
            } else {
                old(self).offset
            }),
    {
        self.selected = index;
        if index.is_none() {
            self.offset = 0;
        }
    }
}

/// Mathematical model of [`AppState`].
pub struct AppStateView {
    pub chats: Seq<ChatView>,
    pub messages: Seq<MessageView>,
    pub chat_list_state: ListSelection,
    pub active_panel: ActivePanel,
    pub input_mode: InputMode,
    pub input_buffer: Seq<char>,
    pub cursor_position: usize,
    pub scroll_offset: u16,
    pub should_quit: bool,
    pub qr_code: Option<Seq<char>>,
    pub whatsapp_connected: bool,
    pub mock_enabled: bool,
    pub settings_state: Option<SettingsStateView>,
}

impl AppStateView {
    /// The id of the chat on screen: that of the selected line, if a line is
    /// selected and the list has it.
    pub open spec fn selected_chat_id(self) -> Option<Seq<char>> {
        match self.chat_list_state.selected {
            Some(i) => if i < self.chats.len() {
                Some(self.chats[i as int].id)
            } else {
                None
            },
            None => None,
        }
    }

    /// Whether the chat with the given id is the one on screen.
    pub open spec fn shows(self, chat_id: Seq<char>) -> bool {
        self.selected_chat_id() == Some(chat_id)
    }
}

/// Everything the screen is drawn from.
pub struct AppState {
    pub chats: Vec<UnifiedChat>,
    pub messages: Vec<UnifiedMessage>,
    pub chat_list_state: ListSelection,
    pub active_panel: ActivePanel,
    pub input_mode: InputMode,
    pub input_buffer: String,
    pub cursor_position: usize,
    pub scroll_offset: u16,
    pub should_quit: bool,
    pub qr_code: Option<String>,
    pub whatsapp_connected: bool,
    pub mock_enabled: bool,
    pub settings_state: Option<SettingsState>,
}

impl View for AppState {
    type V = AppStateView;

    open spec fn view(&self) -> AppStateView {
        AppStateView {
            chats: self.chats.deep_view(),
            messages: self.messages.deep_view(),
            chat_list_state: self.chat_list_state,
            active_panel: self.active_panel,
            input_mode: self.input_mode,
            input_buffer: self.input_buffer@,
            cursor_position: self.cursor_position,
            scroll_offset: self.scroll_offset,
            should_quit: self.should_quit,
            qr_code: opt_chars(self.qr_code),
            whatsapp_connected: self.whatsapp_connected,
            mock_enabled: self.mock_enabled,
            settings_state: match self.settings_state {
                Some(s) => Some(s@),
                None => None,
            },
        }
    }
}

/// The state that a session starts with: nothing loaded, the first line of
/// the list selected, the keyboard in normal mode.
pub open spec fn initial_state() -> AppStateView {
    AppStateView {
        chats: Seq::empty(),
        messages: Seq::empty(),
        chat_list_state: ListSelection { selected: Some(0), offset: 0 },
        active_panel: ActivePanel::ChatList,
        input_mode: InputMode::Normal,
        input_buffer: Seq::empty(),
        cursor_position: 0,
        scroll_offset: 0,
        should_quit: false,
        qr_code: None,
        whatsapp_connected: false,
        mock_enabled: false,
        settings_state: None,
    }
}

/// The number of characters that stand before byte `position` of the UTF-8
/// encoding of `text`.
pub open spec fn chars_before(text: Seq<char>, position: int) -> int {
    decode_utf8(encode_utf8(text).subrange(0, position)).len() as int
}

/// Whether byte `position` of the UTF-8 encoding of `text` is where a
/// character starts, or the end of the text.
pub open spec fn on_char_boundary(text: Seq<char>, position: int) -> bool {
    is_char_boundary(encode_utf8(text), position)
}

/// The two parts of a string, before and behind a character boundary, have
/// the characters of the string between them.
proof fn lemma_split_chars(text: Seq<char>, head: Seq<char>, tail: Seq<char>, position: int)
    requires
        on_char_boundary(text, position),
        encode_utf8(head) == encode_utf8(text).subrange(0, position),
        encode_utf8(tail) == encode_utf8(text).subrange(position, encode_utf8(text).len() as int),
    ensures
        text == head + tail,
        head.len() == chars_before(text, position),
        position > 0 ==> head.len() > 0,
{
    let bytes = encode_utf8(text);
    encode_utf8_valid_utf8(text);
    encode_utf8_decode_utf8(text);
    encode_utf8_decode_utf8(head);
    encode_utf8_decode_utf8(tail);
    decode_utf8_split(bytes, position);
    assert(text =~= head + tail);
    if position > 0 && head.len() == 0 {
        assert(encode_utf8(head).len() == 0);
        vstd::utf8::is_char_boundary_start_end_of_seq(bytes);
        assert(bytes.subrange(0, position).len() == position) by {
            reveal_with_fuel(is_char_boundary, 2);
        }
    }
}

/// How many lines one scroll step moves.
pub const SCROLL_STEP: u16 = 3;

impl AppState {
    pub fn new() -> (state: Self)
        ensures
            state@ == initial_state(),
    {
        let mut chat_list_state = ListSelection { selected: None, offset: 0 };
        chat_list_state.select(Some(0));
        let state = AppState {
            chats: Vec::new(),
            messages: Vec::new(),
            chat_list_state,
            active_panel: ActivePanel::ChatList,
            input_mode: InputMode::Normal,
            input_buffer: String::new(),
            cursor_position: 0,
            scroll_offset: 0,
            should_quit: false,
            qr_code: None,
            whatsapp_connected: false,
            mock_enabled: false,
            settings_state: None,
        };
        assert(state@.chats =~= Seq::empty());
        assert(state@.messages =~= Seq::empty());
        state
    }

    /// The id of the chat on screen.
    pub fn selected_chat_id(&self) -> (id: Option<&str>)
        ensures
            match id {
                Some(text) => self@.selected_chat_id() == Some(text@),
                None => self@.selected_chat_id() is None,
            },
    {
        match self.chat_list_state.selected() {
            Some(i) => {
                if i < self.chats.len() {
                    Some(self.chats[i].id.as_str())
                } else {
                    None
                }
            },
            None => None,
        }
    }

    /// Whether the chat with the given id is the one on screen.
    pub fn shows(&self, chat_id: &str) -> (shown: bool)
        ensures
            shown == self@.shows(chat_id@),
    {
        match self.selected_chat_id() {
            Some(id) => same_text(id, chat_id),
            None => false,
        }
    }

    /// Selects the chat below the selected one, and the first one from the
    /// last; the messages are shown from their end again. An empty list
    /// changes nothing.
    pub fn select_next_chat(&mut self)
        ensures
            old(self).chats.len() == 0 ==> final(self)@ == old(self)@,
            old(self).chats.len() > 0 ==> final(self)@ == (AppStateView {
                chat_list_state: ListSelection {
                    selected: Some(
                        match old(self).chat_list_state.selected {
                            Some(i) => if i >= old(self).chats.len() - 1 {
                                0
                            } else {
                                (i + 1) as usize
                            },
                            None => 0,
                        },
                    ),
                    offset: old(self).chat_list_state.offset,
                },
                scroll_offset: 0,
                ..old(self)@
            }),
    {
        if self.chats.len() == 0 {
            return ;
        }
        let i: usize = match self.chat_list_state.selected() {
            Some(i) => {
                if i >= self.chats.len() - 1 {
                    0
                } else {
                    i + 1
                }
            },
            None => 0,
        };
        self.chat_list_state.select(Some(i));
        self.scroll_offset = 0;
    }

    /// Selects the chat above the selected one, and the last one from the
    /// first; the messages are shown from their end again. An empty list
    /// changes nothing.
    pub fn select_prev_chat(&mut self)
        ensures
            old(self).chats.len() == 0 ==> final(self)@ == old(self)@,
            old(self).chats.len() > 0 ==> final(self)@ == (AppStateView {
                chat_list_state: ListSelection {
                    selected: Some(
                        match old(self).chat_list_state.selected {
                            Some(i) => if i == 0 {
                                (old(self).chats.len() - 1) as usize
                            } else {
                                (i - 1) as usize
                            },
                            None => 0,
                        },
                    ),
                    offset: old(self).chat_list_state.offset,
                },
                scroll_offset: 0,
                ..old(self)@
            }),
    {
        if self.chats.len() == 0 {
            return ;
        }
        let i: usize = match self.chat_list_state.selected() {
            Some(i) => {
                if i == 0 {
                    self.chats.len() - 1
                } else {
                    i - 1
                }
            },
            None => 0,
        };
        self.chat_list_state.select(Some(i));
        self.scroll_offset = 0;
    }

    /// Moves the focus to the other panel.
    pub fn switch_panel(&mut self)
        ensures
            final(self)@ == (AppStateView {
                active_panel: match old(self).active_panel {
                    ActivePanel::ChatList => ActivePanel::MessageView,
                    ActivePanel::MessageView => ActivePanel::ChatList,
                },
                ..old(self)@
            }),
    {
        self.active_panel =
        match self.active_panel {
            ActivePanel::ChatList => ActivePanel::MessageView,
            ActivePanel::MessageView => ActivePanel::ChatList,
        };
    }

    /// Starts typing a message: the keyboard edits, the messages have the focus.
    pub fn enter_editing(&mut self)
        ensures
            final(self)@ == (AppStateView {
                input_mode: InputMode::Editing,
                active_panel: ActivePanel::MessageView,
                ..old(self)@
            }),
    {
        self.input_mode = InputMode::Editing;
        self.active_panel = ActivePanel::MessageView;
    }

    /// Stops typing; what was typed stays in the input line.
    pub fn exit_editing(&mut self)
        ensures
            final(self)@ == (AppStateView { input_mode: InputMode::Normal, ..old(self)@ }),
    {
        self.input_mode = InputMode::Normal;
    }

    /// Inserts a character into the input line where the cursor stands, and
    /// moves the cursor behind it. The cursor is a byte position and has to
    /// stand where a character starts, or at the end.
    pub fn push_char(&mut self, c: char)
        requires
            on_char_boundary(old(self)@.input_buffer, old(self).cursor_position as int),
        ensures
            final(self)@ == (AppStateView {
                input_buffer: old(self)@.input_buffer.insert(
                    chars_before(old(self)@.input_buffer, old(self).cursor_position as int),
                    c,
                ),
                cursor_position: final(self).cursor_position,
                ..old(self)@
            }),
            final(self).cursor_position == encode_utf8(
                old(self)@.input_buffer.take(
                    chars_before(old(self)@.input_buffer, old(self).cursor_position as int),
                ).push(c),
            ).len(),
    {
        let ghost text = self.input_buffer@;
        let (head, tail) = self.input_buffer.as_str().split_at(self.cursor_position);
        proof {
            lemma_split_chars(text, head@, tail@, self.cursor_position as int);
        }
        let mut next = String::from_str(head);
        let piece = char_to_string(c);
        next.append(piece.as_str());
        let cursor = next.as_str().as_bytes().len();
        proof {
            assert(next@ =~= text.take(head@.len() as int).push(c));
            assert(cursor == encode_utf8(next@).len());
        }
        next.append(tail);
        proof {
            assert(next@ =~= text.insert(head@.len() as int, c));
        }
        self.input_buffer = next;
        self.cursor_position = cursor;
    }

    /// Deletes the character before the cursor, and moves the cursor to where
    /// it stood. With the cursor at the start nothing happens.
    pub fn delete_char(&mut self)
        requires
            on_char_boundary(old(self)@.input_buffer, old(self).cursor_position as int),
        ensures
            old(self).cursor_position == 0 ==> final(self)@ == old(self)@,
            old(self).cursor_position > 0 ==> final(self)@ == (AppStateView {
                input_buffer: old(self)@.input_buffer.remove(
                    chars_before(old(self)@.input_buffer, old(self).cursor_position as int) - 1,
                ),
                cursor_position: final(self).cursor_position,
                ..old(self)@
            }) && final(self).cursor_position == encode_utf8(
                old(self)@.input_buffer.take(
                    chars_before(old(self)@.input_buffer, old(self).cursor_position as int) - 1,
                ),
            ).len(),
    {
        if self.cursor_position > 0 {
            let ghost text = self.input_buffer@;
            let (head, tail) = self.input_buffer.as_str().split_at(self.cursor_position);
            proof {
                lemma_split_chars(text, head@, tail@, self.cursor_position as int);
            }
            let count = head.unicode_len();
            let kept = head.substring_char(0, count - 1);
            let mut next = String::from_str(kept);
            let cursor = next.as_str().as_bytes().len();
            proof {
                assert(next@ =~= text.take(count - 1));
                assert(cursor == encode_utf8(next@).len());
            }
            next.append(tail);
            proof {
                assert(next@ =~= text.remove(count - 1));
            }
            self.input_buffer = next;
            self.cursor_position = cursor;
        }
    }

    /// Empties the input line and hands out what it held.
    pub fn take_input(&mut self) -> (input: String)
        ensures
            input@ == old(self)@.input_buffer,
            final(self)@ == (AppStateView {
                input_buffer: Seq::empty(),
                cursor_position: 0,
                ..old(self)@
            }),
    {
        self.cursor_position = 0;
        let mut input = String::new();
        core::mem::swap(&mut self.input_buffer, &mut input);
        input
    }

    /// Scrolls the messages towards the older ones.
    pub fn scroll_up(&mut self)
        ensures
            final(self)@ == (AppStateView {
                scroll_offset: if old(self).scroll_offset + SCROLL_STEP <= u16::MAX {
                    (old(self).scroll_offset + SCROLL_STEP) as u16
                } else {
                    u16::MAX
                },
                ..old(self)@
            }),
    {
        self.scroll_offset =
        if self.scroll_offset <= u16::MAX - SCROLL_STEP {
            self.scroll_offset + SCROLL_STEP
        } else {
            u16::MAX
        };
    }

    /// Scrolls the messages towards the newer ones, down to the newest.
    pub fn scroll_down(&mut self)
        ensures
            final(self)@ == (AppStateView {
                scroll_offset: if old(self).scroll_offset >= SCROLL_STEP {
                    (old(self).scroll_offset - SCROLL_STEP) as u16
                } else {
                    0
                },
                ..old(self)@
            }),
    {
        self.scroll_offset =
        if self.scroll_offset >= SCROLL_STEP {
            self.scroll_offset - SCROLL_STEP
        } else {
            0
        };
    }

    /// Opens the settings dialog on the values of a configuration.
    pub fn open_settings(&mut self, config: &AppConfig)
        ensures
            final(self)@ == (AppStateView {
                settings_state: Some(
                    settings_for(
                        config.mock_provider.enabled,
                        config.whatsapp.enabled,
                        config.general.log_level@,
                    ),
                ),
                input_mode: InputMode::Settings,
                ..old(self)@
            }),
    {
        self.settings_state = Some(SettingsState::from_config(config));
        self.input_mode = InputMode::Settings;
    }

    /// Closes the settings dialog; what it held is dropped.
    pub fn close_settings(&mut self)
        ensures
            final(self)@ == (AppStateView {
                settings_state: None,
                input_mode: InputMode::Normal,
                ..old(self)@
            }),
    {
        self.settings_state = None;
        self.input_mode = InputMode::Normal;
    }
}

} // verus!
