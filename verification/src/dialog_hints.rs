//! The key hints of the metadata, feelings, mood, location and theme dialogs.
use vstd::prelude::*;
use crate::chrome::{ChromeStyle, ColorMode};
use crate::footer::mk;
use crate::hints::{Hint, HintId, hints_short};

verus! {

/// Which part of the metadata and feelings dialogs owns the keyboard.
#[derive(Clone, Copy, Debug, PartialEq, Eq, Structural)]
pub enum EditMetadataFocus {
    List,
    Input,
}

/// Which part of the location dialog owns the keyboard.
#[derive(Clone, Copy, Debug, PartialEq, Eq, Structural)]
pub enum EditLocationFocus {
    Query,
    Name,
    List,
}

/// Every key and label the dialogs use is short.
proof fn lemma_dialog_literals_short()
    ensures
        "open"@.len() <= 64,
        "→"@.len() <= 64,
        "close"@.len() <= 64,
        "←"@.len() <= 64,
        "toggle"@.len() <= 64,
        "space"@.len() <= 64,
        "search"@.len() <= 64,
        "tab"@.len() <= 64,
        "save"@.len() <= 64,
        "enter"@.len() <= 64,
        "cancel"@.len() <= 64,
        "esc"@.len() <= 64,
        "list"@.len() <= 64,
        "select all"@.len() <= 64,
        "^a"@.len() <= 64,
        "chrome: default"@.len() <= 64,
        "b"@.len() <= 64,
        "chrome: flat"@.len() <= 64,
        "chrome: bordered"@.len() <= 64,
        "apply"@.len() <= 64,
        "mode: auto"@.len() <= 64,
        "m"@.len() <= 64,
        "mode: dark"@.len() <= 64,
        "mode: light"@.len() <= 64,
        "revert"@.len() <= 64,
        "decrease"@.len() <= 64,
        "increase"@.len() <= 64,
        "clear"@.len() <= 64,
        "del"@.len() <= 64,
        "input"@.len() <= 64,
        "add"@.len() <= 64,
        "pick"@.len() <= 64,
        "edit"@.len() <= 64,
        "look up"@.len() <= 64,
        "locate"@.len() <= 64,
        "^l"@.len() <= 64,
        "next"@.len() <= 64,
{
    reveal_strlit("open");
    reveal_strlit("→");
    reveal_strlit("close");
    reveal_strlit("←");
    reveal_strlit("toggle");
    reveal_strlit("space");
    reveal_strlit("search");
    reveal_strlit("tab");
    reveal_strlit("save");
    reveal_strlit("enter");
    reveal_strlit("cancel");
    reveal_strlit("esc");
    reveal_strlit("list");
    reveal_strlit("select all");
    reveal_strlit("^a");
    reveal_strlit("chrome: default");
    reveal_strlit("b");
    reveal_strlit("chrome: flat");
    reveal_strlit("chrome: bordered");
    reveal_strlit("apply");
    reveal_strlit("mode: auto");
    reveal_strlit("m");
    reveal_strlit("mode: dark");
    reveal_strlit("mode: light");
    reveal_strlit("revert");
    reveal_strlit("decrease");
    reveal_strlit("increase");
    reveal_strlit("clear");
    reveal_strlit("del");
    reveal_strlit("input");
    reveal_strlit("add");
    reveal_strlit("pick");
    reveal_strlit("edit");
    reveal_strlit("look up");
    reveal_strlit("locate");
    reveal_strlit("^l");
    reveal_strlit("next");
}

/// The feelings dialog's hints while its list has focus.
pub open spec fn feelings_list_hints() -> Seq<Hint> {
    seq![
        mk("open", "→", HintId::FeelingsExpand),
        mk("close", "←", HintId::FeelingsCollapse),
        mk("toggle", "space", HintId::FeelingsToggle),
        mk("search", "tab", HintId::FeelingsSwitchFocus),
        mk("save", "enter", HintId::FeelingsSave),
        mk("cancel", "esc", HintId::CancelOverlay),
    ]
}

fn feelings_list_hint_list() -> (hints: Vec<Hint>)
    ensures
        hints@ == feelings_list_hints(),
        hints_short(hints@),
{
    let mut hints = Vec::new();
    hints.push(Hint::new("open", "→", HintId::FeelingsExpand));
    hints.push(Hint::new("close", "←", HintId::FeelingsCollapse));
    hints.push(Hint::new("toggle", "space", HintId::FeelingsToggle));
    hints.push(Hint::new("search", "tab", HintId::FeelingsSwitchFocus));
    hints.push(Hint::new("save", "enter", HintId::FeelingsSave));
    hints.push(Hint::new("cancel", "esc", HintId::CancelOverlay));
    proof {
        lemma_dialog_literals_short();
    }
    assert(hints@ =~= feelings_list_hints());
    hints
}

/// The feelings dialog's hints while its search field has focus.
pub open spec fn feelings_input_hints() -> Seq<Hint> {
    seq![
        mk("list", "tab", HintId::FeelingsSwitchFocus),
        mk("select all", "^a", HintId::InputSelectAll),
        mk("save", "enter", HintId::FeelingsSave),
        mk("cancel", "esc", HintId::CancelOverlay),
    ]
}

fn feelings_input_hint_list() -> (hints: Vec<Hint>)
    ensures
        hints@ == feelings_input_hints(),
        hints_short(hints@),
{
    let mut hints = Vec::new();
    hints.push(Hint::new("list", "tab", HintId::FeelingsSwitchFocus));
    hints.push(Hint::new("select all", "^a", HintId::InputSelectAll));
    hints.push(Hint::new("save", "enter", HintId::FeelingsSave));
    hints.push(Hint::new("cancel", "esc", HintId::CancelOverlay));
    proof {
        lemma_dialog_literals_short();
    }
    assert(hints@ =~= feelings_input_hints());
    hints
}

/// The mood dialog's hints.
pub open spec fn mood_hints() -> Seq<Hint> {
    seq![
        mk("decrease", "←", HintId::MoodDecrease),
        mk("increase", "→", HintId::MoodIncrease),
        mk("save", "enter", HintId::MoodSave),
        mk("clear", "del", HintId::MoodClear),
        mk("cancel", "esc", HintId::CancelOverlay),
    ]
}

fn mood_hint_list() -> (hints: Vec<Hint>)
    ensures
        hints@ == mood_hints(),
        hints_short(hints@),
{
    let mut hints = Vec::new();
    hints.push(Hint::new("decrease", "←", HintId::MoodDecrease));
    hints.push(Hint::new("increase", "→", HintId::MoodIncrease));
    hints.push(Hint::new("save", "enter", HintId::MoodSave));
    hints.push(Hint::new("clear", "del", HintId::MoodClear));
    hints.push(Hint::new("cancel", "esc", HintId::CancelOverlay));
    proof {
        lemma_dialog_literals_short();
    }
    assert(hints@ =~= mood_hints());
    hints
}

/// The tags/people/activities dialog's hints while its list has focus.
pub open spec fn metadata_list_hints() -> Seq<Hint> {
    seq![
        mk("toggle", "space", HintId::MetadataToggle),
        mk("input", "tab", HintId::MetadataSwitchFocus),
        mk("save", "enter", HintId::MetadataSave),
        mk("cancel", "esc", HintId::CancelOverlay),
    ]
}

fn metadata_list_hint_list() -> (hints: Vec<Hint>)
    ensures
        hints@ == metadata_list_hints(),
        hints_short(hints@),
{
    let mut hints = Vec::new();
    hints.push(Hint::new("toggle", "space", HintId::MetadataToggle));
    hints.push(Hint::new("input", "tab", HintId::MetadataSwitchFocus));
    hints.push(Hint::new("save", "enter", HintId::MetadataSave));
    hints.push(Hint::new("cancel", "esc", HintId::CancelOverlay));
    proof {
        lemma_dialog_literals_short();
    }
    assert(hints@ =~= metadata_list_hints());
    hints
}

/// The metadata dialog's hints while its empty input has focus: Enter saves.
pub open spec fn metadata_input_empty_hints() -> Seq<Hint> {
    seq![
        mk("save", "enter", HintId::MetadataSave),
        mk("list", "tab", HintId::MetadataSwitchFocus),
        mk("cancel", "esc", HintId::CancelOverlay),
    ]
}

fn metadata_input_empty_hint_list() -> (hints: Vec<Hint>)
    ensures
        hints@ == metadata_input_empty_hints(),
        hints_short(hints@),
{
    let mut hints = Vec::new();
    hints.push(Hint::new("save", "enter", HintId::MetadataSave));
    hints.push(Hint::new("list", "tab", HintId::MetadataSwitchFocus));
    hints.push(Hint::new("cancel", "esc", HintId::CancelOverlay));
    proof {
        lemma_dialog_literals_short();
    }
    assert(hints@ =~= metadata_input_empty_hints());
    hints
}

/// The metadata dialog's hints while its input holds a value: Enter adds it.
pub open spec fn metadata_input_value_hints() -> Seq<Hint> {
    seq![
        mk("add", "enter", HintId::MetadataAddFromInput),
        mk("list", "tab", HintId::MetadataSwitchFocus),
        mk("select all", "^a", HintId::InputSelectAll),
        mk("cancel", "esc", HintId::CancelOverlay),
    ]
}

fn metadata_input_value_hint_list() -> (hints: Vec<Hint>)
    ensures
        hints@ == metadata_input_value_hints(),
        hints_short(hints@),
{
    let mut hints = Vec::new();
    hints.push(Hint::new("add", "enter", HintId::MetadataAddFromInput));
    hints.push(Hint::new("list", "tab", HintId::MetadataSwitchFocus));
    hints.push(Hint::new("select all", "^a", HintId::InputSelectAll));
    hints.push(Hint::new("cancel", "esc", HintId::CancelOverlay));
    proof {
        lemma_dialog_literals_short();
    }
    assert(hints@ =~= metadata_input_value_hints());
    hints
}

/// The location dialog's hints while its result list has focus.
pub open spec fn location_list_hints() -> Seq<Hint> {
    seq![
        mk("pick", "enter", HintId::LocationSelectRow),
        mk("edit", "tab", HintId::LocationSwitchFocus),
        mk("clear", "del", HintId::LocationClear),
        mk("cancel", "esc", HintId::CancelOverlay),
    ]
}

fn location_list_hint_list() -> (hints: Vec<Hint>)
    ensures
        hints@ == location_list_hints(),
        hints_short(hints@),
{
    let mut hints = Vec::new();
    hints.push(Hint::new("pick", "enter", HintId::LocationSelectRow));
    hints.push(Hint::new("edit", "tab", HintId::LocationSwitchFocus));
    hints.push(Hint::new("clear", "del", HintId::LocationClear));
    hints.push(Hint::new("cancel", "esc", HintId::CancelOverlay));
    proof {
        lemma_dialog_literals_short();
    }
    assert(hints@ =~= location_list_hints());
    hints
}

/// The location dialog's hints while its query field has focus.
pub open spec fn location_query_hints() -> Seq<Hint> {
    seq![
        mk("look up", "enter", HintId::LocationResolve),
        mk("locate", "^l", HintId::LocationGrabDevice),
        mk("next", "tab", HintId::LocationSwitchFocus),
        mk("select all", "^a", HintId::InputSelectAll),
        mk("cancel", "esc", HintId::CancelOverlay),
    ]
}

fn location_query_hint_list() -> (hints: Vec<Hint>)
    ensures
        hints@ == location_query_hints(),
        hints_short(hints@),
{
    let mut hints = Vec::new();
    hints.push(Hint::new("look up", "enter", HintId::LocationResolve));
    hints.push(Hint::new("locate", "^l", HintId::LocationGrabDevice));
    hints.push(Hint::new("next", "tab", HintId::LocationSwitchFocus));
    hints.push(Hint::new("select all", "^a", HintId::InputSelectAll));
    hints.push(Hint::new("cancel", "esc", HintId::CancelOverlay));
    proof {
        lemma_dialog_literals_short();
    }
    assert(hints@ =~= location_query_hints());
    hints
}

/// The location dialog's query-field hints once the query is looked up: Enter saves.
pub open spec fn location_query_resolved_hints() -> Seq<Hint> {
    seq![
        mk("save", "enter", HintId::LocationSave),
        mk("locate", "^l", HintId::LocationGrabDevice),
        mk("next", "tab", HintId::LocationSwitchFocus),
        mk("select all", "^a", HintId::InputSelectAll),
        mk("cancel", "esc", HintId::CancelOverlay),
    ]
}

fn location_query_resolved_hint_list() -> (hints: Vec<Hint>)
    ensures
        hints@ == location_query_resolved_hints(),
        hints_short(hints@),
{
    let mut hints = Vec::new();
    hints.push(Hint::new("save", "enter", HintId::LocationSave));
    hints.push(Hint::new("locate", "^l", HintId::LocationGrabDevice));
    hints.push(Hint::new("next", "tab", HintId::LocationSwitchFocus));
    hints.push(Hint::new("select all", "^a", HintId::InputSelectAll));
    hints.push(Hint::new("cancel", "esc", HintId::CancelOverlay));
    proof {
        lemma_dialog_literals_short();
    }
    assert(hints@ =~= location_query_resolved_hints());
    hints
}

/// The location dialog's hints while its name field has focus.
pub open spec fn location_name_hints() -> Seq<Hint> {
    seq![
        mk("save", "enter", HintId::LocationSave),
        mk("locate", "^l", HintId::LocationGrabDevice),
        mk("next", "tab", HintId::LocationSwitchFocus),
        mk("select all", "^a", HintId::InputSelectAll),
        mk("cancel", "esc", HintId::CancelOverlay),
    ]
}

fn location_name_hint_list() -> (hints: Vec<Hint>)
    ensures
        hints@ == location_name_hints(),
        hints_short(hints@),
{
    let mut hints = Vec::new();
    hints.push(Hint::new("save", "enter", HintId::LocationSave));
    hints.push(Hint::new("locate", "^l", HintId::LocationGrabDevice));
    hints.push(Hint::new("next", "tab", HintId::LocationSwitchFocus));
    hints.push(Hint::new("select all", "^a", HintId::InputSelectAll));
    hints.push(Hint::new("cancel", "esc", HintId::CancelOverlay));
    proof {
        lemma_dialog_literals_short();
    }
    assert(hints@ =~= location_name_hints());
    hints
}

/// The feelings dialog's hints for the focused part.
pub fn feelings_dialog_hints(focus: EditMetadataFocus) -> (hints: Vec<Hint>)
    ensures
        hints@ == (match focus {
            EditMetadataFocus::List => feelings_list_hints(),
            EditMetadataFocus::Input => feelings_input_hints(),
        }),
        hints_short(hints@),
{
    match focus {
        EditMetadataFocus::List => feelings_list_hint_list(),
        EditMetadataFocus::Input => feelings_input_hint_list(),
    }
}

/// The mood dialog's hints.
pub fn mood_dialog_hints() -> (hints: Vec<Hint>)
    ensures
        hints@ == mood_hints(),
        hints_short(hints@),
{
    mood_hint_list()
}

/// The location dialog's hints for the focused field; once the query is
/// looked up, Enter in the query field saves.
pub fn location_dialog_hints(focus: EditLocationFocus, query_looked_up: bool) -> (hints: Vec<Hint>)
    ensures
        hints@ == (match focus {
            EditLocationFocus::Query => if query_looked_up {
                location_query_resolved_hints()
            } else {
                location_query_hints()
            },
            EditLocationFocus::Name => location_name_hints(),
            EditLocationFocus::List => location_list_hints(),
        }),
        hints_short(hints@),
{
    match focus {
        EditLocationFocus::Query => if query_looked_up {
            location_query_resolved_hint_list()
        } else {
            location_query_hint_list()
        },
        EditLocationFocus::Name => location_name_hint_list(),
        EditLocationFocus::List => location_list_hint_list(),
    }
}

/// The metadata dialog's hints: the list's, or the input's, whose Enter saves
/// when the input is empty and adds its value otherwise.
pub fn metadata_dialog_hints(focus: EditMetadataFocus, input_is_empty: bool) -> (hints: Vec<Hint>)
    ensures
        hints@ == (match focus {
            EditMetadataFocus::List => metadata_list_hints(),
            EditMetadataFocus::Input => if input_is_empty {
                metadata_input_empty_hints()
            } else {
                metadata_input_value_hints()
            },
        }),
        hints_short(hints@),
{
    match focus {
        EditMetadataFocus::List => metadata_list_hint_list(),
        EditMetadataFocus::Input => if input_is_empty {
            metadata_input_empty_hint_list()
        } else {
            metadata_input_value_hint_list()
        },
    }
}

/// The theme picker's chrome hint, naming the active chrome override.
pub open spec fn spec_chrome_hint(chrome_override: Option<ChromeStyle>) -> Hint {
    match chrome_override {
        None => mk("chrome: default", "b", HintId::ThemePickerChrome),
        Some(ChromeStyle::Flat) => mk("chrome: flat", "b", HintId::ThemePickerChrome),
        Some(ChromeStyle::Bordered) => mk("chrome: bordered", "b", HintId::ThemePickerChrome),
    }
}

/// The theme picker's color-mode hint, naming the active mode.
pub open spec fn spec_mode_hint(color_mode: ColorMode) -> Hint {
    match color_mode {
        ColorMode::Auto => mk("mode: auto", "m", HintId::ThemePickerMode),
        ColorMode::Dark => mk("mode: dark", "m", HintId::ThemePickerMode),
        ColorMode::Light => mk("mode: light", "m", HintId::ThemePickerMode),
    }
}

pub open spec fn spec_theme_picker_hints(
    mode_switchable: bool,
    chrome_override: Option<ChromeStyle>,
    color_mode: ColorMode,
) -> Seq<Hint> {
    seq![mk("apply", "enter", HintId::ThemePickerApply), spec_chrome_hint(chrome_override)] + (
    if mode_switchable {
        seq![spec_mode_hint(color_mode)]
    } else {
        Seq::empty()
    }) + seq![mk("revert", "esc", HintId::ThemePickerRevert)]
}

/// The theme picker's hint row, with the chrome and mode hints' labels
/// reflecting the live `[ui]` settings so cycling them reads back at once. The
/// mode hint only shows when the highlighted theme has dark/light variants.
pub fn theme_picker_hints(
    mode_switchable: bool,
    chrome_override: Option<ChromeStyle>,
    color_mode: ColorMode,
) -> (hints: Vec<Hint>)
    ensures
        hints@ == spec_theme_picker_hints(mode_switchable, chrome_override, color_mode),
        hints_short(hints@),
{
    proof {
        lemma_dialog_literals_short();
    }
    let chrome = match chrome_override {
        None => Hint::new("chrome: default", "b", HintId::ThemePickerChrome),
        Some(ChromeStyle::Flat) => Hint::new("chrome: flat", "b", HintId::ThemePickerChrome),
        Some(ChromeStyle::Bordered) => Hint::new(
            "chrome: bordered",
            "b",
            HintId::ThemePickerChrome,
        ),
    };
    let mut hints = Vec::new();
    hints.push(Hint::new("apply", "enter", HintId::ThemePickerApply));
    hints.push(chrome);
    if mode_switchable {
        hints.push(
            match color_mode {
                ColorMode::Auto => Hint::new("mode: auto", "m", HintId::ThemePickerMode),
                ColorMode::Dark => Hint::new("mode: dark", "m", HintId::ThemePickerMode),
                ColorMode::Light => Hint::new("mode: light", "m", HintId::ThemePickerMode),
            },
        );
    }
    hints.push(Hint::new("revert", "esc", HintId::ThemePickerRevert));
    assert(hints@ =~= spec_theme_picker_hints(mode_switchable, chrome_override, color_mode));
    hints
}

} // verus!
