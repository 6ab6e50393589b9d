//! The lines of the settings dialog.

use vstd::prelude::*;
use vstd::string::StringExecFns;

use crate::tui::app_state::{
    SettingsItem, SettingsItemView, SettingsState, SettingsValue, SettingsValueView,
};
use crate::tui::render::{centered, centered_rect, Rect};

verus! {

/// How wide the dialog is, where the screen leaves it the room.
pub const POPUP_WIDTH: u16 = 46;

/// How wide the column of the labels is.
pub const LABEL_WIDTH: usize = 24;

/// Mathematical model of [`SettingsLine`].
pub struct SettingsLineView {
    pub prefix: Seq<char>,
    pub label: Seq<char>,
    pub value: Seq<char>,
    pub selected: bool,
}

/// One line of the settings dialog, in its three parts.
#[derive(Debug)]
pub struct SettingsLine {
    /// The marker of the selected line, or blanks.
    pub prefix: String,
    /// The label, filled up with blanks to the width of its column.
    pub label: String,
    /// The value as shown.
    pub value: String,
    pub selected: bool,
}

impl View for SettingsLine {
    type V = SettingsLineView;

    open spec fn view(&self) -> SettingsLineView {
        SettingsLineView {
            prefix: self.prefix@,
            label: self.label@,
            value: self.value@,
            selected: self.selected,
        }
    }
}

impl DeepView for SettingsLine {
    type V = SettingsLineView;

    open spec fn deep_view(&self) -> SettingsLineView {
        self@
    }
}

/// A text filled up with blanks on its right to a width; a text as wide or
/// wider stays.
pub open spec fn padded(text: Seq<char>, width: int) -> Seq<char> {
    if text.len() >= width {
        text
    } else {
        text + Seq::new((width - text.len()) as nat, |i: int| ' ')
    }
}

/// A value as the dialog shows it: a switch as a box, a choice between
/// angle brackets. A choice out of its range shows nothing between them.
pub open spec fn shown_value(value: SettingsValueView) -> Seq<char> {
    match value {
        SettingsValueView::Bool(true) => "[x] On "@,
        SettingsValueView::Bool(false) => "[ ] Off"@,
        SettingsValueView::Choice(choices, index) => "< "@ + (if index < choices.len() {
            choices[index as int]
        } else {
            Seq::empty()
        }) + " >"@,
    }
}

/// The line of an item of the dialog.
pub open spec fn settings_line_of(item: SettingsItemView, selected: bool) -> SettingsLineView {
    SettingsLineView {
        prefix: if selected {
            "  > "@
        } else {
            "    "@
        },
        label: padded(item.label, LABEL_WIDTH as int),
        value: shown_value(item.value),
        selected: selected,
    }
}

/// Fills a text up with blanks on its right.
pub fn pad_right(text: &str, width: usize) -> (out: String)
    ensures
        out@ == padded(text@, width as int),
{
    let mut out = String::from_str(text);
    let len = vstd::string::StrSliceExecFns::unicode_len(text);
    if len >= width {
        return out;
    }
    let mut i: usize = len;
    proof {
        reveal_strlit(" ");
    }
    while i < width
        invariant
            len <= i <= width,
            len == text@.len(),
            " "@ == seq![' '],
            out@ == text@ + Seq::new((i - len) as nat, |k: int| ' '),
        decreases width - i,
    {
        let ghost before = out@;
        out.append(" ");
        assert(out@ =~= text@ + Seq::new((i + 1 - len) as nat, |k: int| ' '));
        i += 1;
    }
    out
}

/// The line of an item of the dialog.
pub fn settings_line(item: &SettingsItem, selected: bool) -> (line: SettingsLine)
    ensures
        line@ == settings_line_of(item@, selected),
{
    let value = match &item.value {
        SettingsValue::Bool(true) => String::from_str("[x] On "),
        SettingsValue::Bool(false) => String::from_str("[ ] Off"),
        SettingsValue::Choice(choices, index) => {
            let mut text = String::from_str("< ");
            if *index < choices.len() {
                text.append(choices[*index].as_str());
            }
            text.append(" >");
            assert(text@ =~= shown_value(item@.value));
            text
        },
    };
    SettingsLine {
        prefix: String::from_str(
            if selected {
                "  > "
            } else {
                "    "
            },
        ),
        label: pad_right(item.label.as_str(), LABEL_WIDTH),
        value,
        selected,
    }
}

/// The lines of the items of the dialog, in order; the selected item has
/// the marker.
pub fn settings_lines(settings: &SettingsState) -> (lines: Vec<SettingsLine>)
    ensures
        lines.len() == settings.items.len(),
        forall|i: int|
            0 <= i < lines.len() ==> (#[trigger] lines[i])@ == settings_line_of(
                settings@.items[i],
                i == settings.selected,
            ),
{
    let mut lines: Vec<SettingsLine> = Vec::new();
    let mut i: usize = 0;
    while i < settings.items.len()
        invariant
            0 <= i <= settings.items.len(),
            lines.len() == i,
            forall|k: int|
                0 <= k < i ==> (#[trigger] lines[k])@ == settings_line_of(
                    settings@.items[k],
                    k == settings.selected,
                ),
        decreases settings.items.len() - i,
    {
        assert(settings@.items[i as int] == settings.items[i as int]@);
        lines.push(settings_line(&settings.items[i], i == settings.selected));
        i += 1;
    }
    lines
}

/// The place of the dialog on the screen: in the middle, as high as its
/// items and eight lines more, cut down to the screen.
pub open spec fn settings_popup_spec(items: int, area: Rect) -> Rect {
    centered(
        POPUP_WIDTH,
        if items + 8 > u16::MAX {
            u16::MAX
        } else {
            (items + 8) as u16
        },
        area,
    )
}

/// The place of the dialog on the screen.
pub fn settings_popup(item_count: usize, area: Rect) -> (popup: Rect)
    ensures
        popup == settings_popup_spec(item_count as int, area),
{
    let height: u16 = if item_count > (u16::MAX - 8) as usize {
        u16::MAX
    } else {
        (item_count + 8) as u16
    };
    centered_rect(POPUP_WIDTH, height, area)
}

} // verus!
