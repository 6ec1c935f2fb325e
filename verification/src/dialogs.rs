//! Geometry of the list dialogs (tags and people, feelings, location, theme
//! picker) and the mood dialog: how tall each is for what it lists, where it
//! sits, and the rows inside it. Drawing and mouse hit-testing both take
//! their rects from here.
use vstd::prelude::*;
use crate::chrome::{dialog_frame_rows, ChromeStyle, ColorMode};
use crate::dialog_hints::{
    feelings_dialog_hints, feelings_input_hints, feelings_list_hints, location_dialog_hints,
    location_list_hints, location_name_hints, location_query_hints, location_query_resolved_hints,
    metadata_dialog_hints, metadata_input_empty_hints, metadata_input_value_hints,
    metadata_list_hints, mood_dialog_hints, mood_hints, spec_theme_picker_hints, theme_picker_hints,
    EditLocationFocus, EditMetadataFocus,
};
use crate::frames::{buttons_fit, confirm_button_at, dialog_inner, spec_confirm_button_at, spec_dialog_inner};
use crate::geometry::{Rect, sat_sub};
use crate::hints::{hint_height, lemma_hint_height_at_most_hints, spec_hint_height};
use crate::surface::{
    feelings_selected_rows, location_row_lines, spec_metadata_value_rows, LOCATION_LIST_MAX_ITEM_LINES,
    SELECTED_LABEL_WIDTH,
};
use crate::text::{decimal, decimal_string, string_of};
use crate::wrap::{first_lines, strings_view, wrapped_lines};
use crate::split::{
    centered_rect_fixed_size, min16, part_of, span_on, spec_centered_fixed_size, split_area, within, Axis, Packing,
    SizeRule,
};

verus! {

/// Preferred width of the list dialogs (tags, people, feelings, themes).
pub const LIST_DIALOG_WIDTH: u16 = 44;

/// Preferred width of the location dialog.
pub const LOCATION_DIALOG_WIDTH: u16 = 66;

/// Preferred width of the mood dialog.
pub const MOOD_DIALOG_WIDTH: u16 = 90;

/// Width the mood dialog's hints are laid out for.
pub const MOOD_HINT_WIDTH: u16 = 44;

/// Most list rows the tags and people dialog shows at once.
pub const METADATA_DIALOG_MAX_VISIBLE_ROWS: u16 = 14;

/// Most list rows the feelings dialog shows at once.
pub const FEELINGS_DIALOG_MAX_VISIBLE_ROWS: u16 = 16;

/// Most list rows the theme picker shows at once.
pub const THEME_PICKER_MAX_VISIBLE_ROWS: u16 = 14;

/// Most list rows the location dialog shows at once.
pub const LOCATION_DIALOG_MAX_VISIBLE_ROWS: u16 = 8;

/// Rows of the location dialog above its list: title, separator, the two
/// inputs, a blank spacer, the status line, a separator and the heading.
pub const LOCATION_DIALOG_CHROME: u16 = 8;

/// The blank row between the location list and its hints.
pub const LOCATION_DIALOG_HINTS_SPACER: u16 = 1;

/// The larger of two sizes.
pub open spec fn max16(a: u16, b: u16) -> u16 {
    if a > b { a } else { b }
}

/// `n` rows kept between one and `max` (after `n` is taken as a `u16`).
pub open spec fn visible_rows(n: u16, max: u16) -> u16 {
    if n < 1 { 1 } else if n > max { max } else { n }
}

/// The row budget a dialog can take in a frame: two rows less than its
/// height.
pub open spec fn height_budget(frame_area: Rect) -> u16 {
    sat_sub(frame_area.height as int, 2) as u16
}

/// The width hints get inside a dialog `width` wide centred in `frame_area`.
pub open spec fn spec_hint_width(frame_area: Rect, width: u16, chrome: ChromeStyle) -> u16 {
    spec_dialog_inner(spec_centered_fixed_size(width, 1, frame_area), chrome).width
}

/// The inner width of a one-row dialog `width` wide centred in
/// `frame_area`: what its hints and lists are laid out to.
pub fn dialog_hint_width(frame_area: Rect, width: u16, chrome: ChromeStyle) -> (w: u16)
    ensures
        w == spec_hint_width(frame_area, width, chrome),
{
    let area = centered_rect_fixed_size(width, 1, frame_area);
    dialog_inner(area, chrome).width
}

/// Rows the tags and people dialog reserves for hints: the most any of its
/// focus states needs, so the layout holds still while focus moves.
pub open spec fn spec_tag_hint_height(frame_area: Rect, chrome: ChromeStyle) -> u16 {
    let w = spec_hint_width(frame_area, LIST_DIALOG_WIDTH, chrome) as int;
    max16(
        max16(spec_hint_height(metadata_list_hints(), w), spec_hint_height(metadata_input_empty_hints(), w)),
        spec_hint_height(metadata_input_value_hints(), w),
    )
}

pub fn tag_dialog_hint_height(frame_area: Rect, chrome: ChromeStyle) -> (h: u16)
    ensures
        h == spec_tag_hint_height(frame_area, chrome),
        1 <= h <= 8,
{
    let width = dialog_hint_width(frame_area, LIST_DIALOG_WIDTH, chrome);
    let list = hint_height(metadata_dialog_hints(EditMetadataFocus::List, true).as_slice(), width);
    let empty = hint_height(metadata_dialog_hints(EditMetadataFocus::Input, true).as_slice(), width);
    let value = hint_height(metadata_dialog_hints(EditMetadataFocus::Input, false).as_slice(), width);
    proof {
        lemma_hint_height_at_most_hints(metadata_list_hints(), width as int);
        lemma_hint_height_at_most_hints(metadata_input_empty_hints(), width as int);
        lemma_hint_height_at_most_hints(metadata_input_value_hints(), width as int);
    }
    let first = if list > empty { list } else { empty };
    if first > value { first } else { value }
}

/// Rows the feelings dialog reserves for hints: the taller of its list and
/// search states.
pub open spec fn spec_feelings_hint_height(frame_area: Rect, chrome: ChromeStyle) -> u16 {
    let w = spec_hint_width(frame_area, LIST_DIALOG_WIDTH, chrome) as int;
    max16(spec_hint_height(feelings_list_hints(), w), spec_hint_height(feelings_input_hints(), w))
}

pub fn feelings_dialog_hint_height(frame_area: Rect, chrome: ChromeStyle) -> (h: u16)
    ensures
        h == spec_feelings_hint_height(frame_area, chrome),
        1 <= h <= 8,
{
    let width = dialog_hint_width(frame_area, LIST_DIALOG_WIDTH, chrome);
    let list = hint_height(feelings_dialog_hints(EditMetadataFocus::List).as_slice(), width);
    let input = hint_height(feelings_dialog_hints(EditMetadataFocus::Input).as_slice(), width);
    proof {
        lemma_hint_height_at_most_hints(feelings_list_hints(), width as int);
        lemma_hint_height_at_most_hints(feelings_input_hints(), width as int);
    }
    if list > input { list } else { input }
}

/// Rows the mood dialog reserves for hints.
pub open spec fn spec_mood_hint_height(frame_area: Rect, chrome: ChromeStyle) -> u16 {
    spec_hint_height(mood_hints(), spec_hint_width(frame_area, MOOD_HINT_WIDTH, chrome) as int)
}

pub fn mood_dialog_hint_height(frame_area: Rect, chrome: ChromeStyle) -> (h: u16)
    ensures
        h == spec_mood_hint_height(frame_area, chrome),
        1 <= h <= 8,
{
    let width = dialog_hint_width(frame_area, MOOD_HINT_WIDTH, chrome);
    proof {
        lemma_hint_height_at_most_hints(mood_hints(), width as int);
    }
    hint_height(mood_dialog_hints().as_slice(), width)
}

/// Rows the location dialog reserves for hints: the tallest of its focus
/// states.
pub open spec fn spec_location_hint_height(frame_area: Rect, chrome: ChromeStyle) -> u16 {
    let w = spec_hint_width(frame_area, LOCATION_DIALOG_WIDTH, chrome) as int;
    max16(
        max16(
            max16(spec_hint_height(location_query_hints(), w), spec_hint_height(location_query_resolved_hints(), w)),
            spec_hint_height(location_name_hints(), w),
        ),
        spec_hint_height(location_list_hints(), w),
    )
}

pub fn location_dialog_hint_height(frame_area: Rect, chrome: ChromeStyle) -> (h: u16)
    ensures
        h == spec_location_hint_height(frame_area, chrome),
        1 <= h <= 8,
{
    let width = dialog_hint_width(frame_area, LOCATION_DIALOG_WIDTH, chrome);
    let query = hint_height(location_dialog_hints(EditLocationFocus::Query, false).as_slice(), width);
    let resolved = hint_height(location_dialog_hints(EditLocationFocus::Query, true).as_slice(), width);
    let name = hint_height(location_dialog_hints(EditLocationFocus::Name, false).as_slice(), width);
    let list = hint_height(location_dialog_hints(EditLocationFocus::List, false).as_slice(), width);
    proof {
        lemma_hint_height_at_most_hints(location_query_hints(), width as int);
        lemma_hint_height_at_most_hints(location_query_resolved_hints(), width as int);
        lemma_hint_height_at_most_hints(location_name_hints(), width as int);
        lemma_hint_height_at_most_hints(location_list_hints(), width as int);
    }
    let a = if query > resolved { query } else { resolved };
    let b = if a > name { a } else { name };
    if b > list { b } else { list }
}

/// Rows the theme picker reserves for its hints.
pub open spec fn spec_theme_hint_height(
    frame_area: Rect,
    mode_switchable: bool,
    chrome_override: Option<ChromeStyle>,
    color_mode: ColorMode,
    chrome: ChromeStyle,
) -> u16 {
    spec_hint_height(
        spec_theme_picker_hints(mode_switchable, chrome_override, color_mode),
        spec_hint_width(frame_area, LIST_DIALOG_WIDTH, chrome) as int,
    )
}

pub fn theme_picker_hint_height(
    frame_area: Rect,
    mode_switchable: bool,
    chrome_override: Option<ChromeStyle>,
    color_mode: ColorMode,
    chrome: ChromeStyle,
) -> (h: u16)
    ensures
        h == spec_theme_hint_height(frame_area, mode_switchable, chrome_override, color_mode, chrome),
        1 <= h <= 8,
{
    let width = dialog_hint_width(frame_area, LIST_DIALOG_WIDTH, chrome);
    let hints = theme_picker_hints(mode_switchable, chrome_override, color_mode);
    proof {
        lemma_hint_height_at_most_hints(hints@, width as int);
    }
    hint_height(hints.as_slice(), width)
}

/// `n` as a `u16` (truncating, as the count is taken), kept between one and
/// `max`.
fn clamp_rows(n: usize, max: u16) -> (rows: u16)
    requires
        max >= 1,
    ensures
        rows == visible_rows(n as u16, max),
{
    let n16 = n as u16;
    if n16 < 1 {
        1
    } else if n16 > max {
        max
    } else {
        n16
    }
}


/// Rows a dialog frame takes: `dialog_frame_rows` of the chrome.
pub open spec fn frame_rows(chrome: ChromeStyle) -> int {
    if chrome == ChromeStyle::Flat { 4 } else { 2 }
}

/// A full-width row of `inner` at `y`, `height` rows tall.
pub open spec fn band(inner: Rect, y: int, height: int) -> Rect {
    Rect { x: inner.x, y: y as u16, width: inner.width, height: height as u16 }
}

// ── The tags and people dialog ───────────────────────────────────────────────

/// Height of the tags and people dialog: its fixed rows, the hints and the
/// visible list rows, within the frame's budget.
pub open spec fn spec_metadata_dialog_height(frame_area: Rect, filtered_len: usize, chrome: ChromeStyle) -> u16 {
    let wanted = 5 + frame_rows(chrome) + spec_tag_hint_height(frame_area, chrome) + visible_rows(
        filtered_len as u16,
        METADATA_DIALOG_MAX_VISIBLE_ROWS,
    );
    min16(wanted as u16, height_budget(frame_area))
}

pub open spec fn spec_metadata_dialog_area(frame_area: Rect, filtered_len: usize, chrome: ChromeStyle) -> Rect {
    spec_centered_fixed_size(
        LIST_DIALOG_WIDTH,
        spec_metadata_dialog_height(frame_area, filtered_len, chrome),
        frame_area,
    )
}

/// Where the tags and people dialog sits for a list of `filtered_len` rows.
pub fn metadata_dialog_area(frame_area: Rect, filtered_len: usize, chrome: ChromeStyle) -> (area: Rect)
    ensures
        area == spec_metadata_dialog_area(frame_area, filtered_len, chrome),
        within(area, frame_area),
{
    let fixed: u16 = 5 + dialog_frame_rows(chrome);
    let hints = tag_dialog_hint_height(frame_area, chrome);
    let visible = clamp_rows(filtered_len, METADATA_DIALOG_MAX_VISIBLE_ROWS);
    let wanted = fixed + hints + visible;
    let budget = frame_area.height.saturating_sub(2);
    let h = if wanted < budget { wanted } else { budget };
    centered_rect_fixed_size(LIST_DIALOG_WIDTH, h, frame_area)
}

/// The rects of the tags and people dialog.
#[derive(Clone, Copy, Debug, PartialEq, Eq)]
pub struct MetadataDialogLayout {
    pub area: Rect,
    pub inner: Rect,
    pub list_top_separator: Rect,
    pub list: Rect,
    pub list_bottom_separator: Rect,
    pub input: Rect,
    pub hints: Rect,
}

/// Whether the rows of a tags and people dialog in `area` have `u16`
/// coordinates.
pub open spec fn metadata_rows_fit(area: Rect, hint_height: u16, chrome: ChromeStyle) -> bool {
    let inner = spec_dialog_inner(area, chrome);
    &&& inner.y + 2 + sat_sub(inner.height as int, 5 + hint_height) + 1 <= u16::MAX
    &&& inner.y + sat_sub(inner.height as int, hint_height as int) <= u16::MAX
}

/// Inside the border: the title row, a separator, the list, a separator, the
/// input, and the hints at the bottom.
pub open spec fn spec_metadata_rects(area: Rect, hint_height: u16, chrome: ChromeStyle) -> MetadataDialogLayout {
    let inner = spec_dialog_inner(area, chrome);
    let list = band(inner, inner.y + 2, sat_sub(inner.height as int, 5 + hint_height));
    let bottom = band(inner, list.y + list.height, 1);
    MetadataDialogLayout {
        area,
        inner,
        list_top_separator: band(inner, inner.y + 1, 1),
        list,
        list_bottom_separator: bottom,
        input: band(inner, bottom.y + 1, 1),
        hints: band(inner, inner.y + sat_sub(inner.height as int, hint_height as int), hint_height as int),
    }
}

/// The rows of a tags and people dialog drawn in `area` with `hint_height`
/// rows of hints.
pub fn metadata_dialog_rects(area: Rect, hint_height: u16, chrome: ChromeStyle) -> (layout: MetadataDialogLayout)
    requires
        5 + hint_height <= u16::MAX,
        metadata_rows_fit(area, hint_height, chrome),
    ensures
        layout == spec_metadata_rects(area, hint_height, chrome),
{
    let inner = dialog_inner(area, chrome);
    let list_height = inner.height.saturating_sub(5 + hint_height);
    let list = Rect { x: inner.x, y: inner.y + 2, width: inner.width, height: list_height };
    let list_top_separator = Rect { x: inner.x, y: inner.y + 1, width: inner.width, height: 1 };
    let list_bottom_separator = Rect { x: inner.x, y: list.y + list.height, width: inner.width, height: 1 };
    let input = Rect { x: inner.x, y: list_bottom_separator.y + 1, width: inner.width, height: 1 };
    let hints = Rect {
        x: inner.x,
        y: inner.y + inner.height.saturating_sub(hint_height),
        width: inner.width,
        height: hint_height,
    };
    MetadataDialogLayout { area, inner, list_top_separator, list, list_bottom_separator, input, hints }
}

/// The tags and people dialog's geometry for a list of `filtered_len` rows,
/// shared by the draw and the mouse hit-tests.
pub fn metadata_dialog_layout(frame_area: Rect, filtered_len: usize, chrome: ChromeStyle) -> (layout: MetadataDialogLayout)
    requires
        metadata_rows_fit(
            spec_metadata_dialog_area(frame_area, filtered_len, chrome),
            spec_tag_hint_height(frame_area, chrome),
            chrome,
        ),
    ensures
        layout == spec_metadata_rects(
            spec_metadata_dialog_area(frame_area, filtered_len, chrome),
            spec_tag_hint_height(frame_area, chrome),
            chrome,
        ),
{
    let area = metadata_dialog_area(frame_area, filtered_len, chrome);
    let hints = tag_dialog_hint_height(frame_area, chrome);
    metadata_dialog_rects(area, hints, chrome)
}

/// `metadata_dialog_layout`, or `None` where the dialog's rows would run past
/// the last `u16` row.
pub fn checked_metadata_dialog_layout(frame_area: Rect, filtered_len: usize, chrome: ChromeStyle) -> (layout: Option<
    MetadataDialogLayout,
>)
    ensures
        match layout {
            Some(l) => metadata_rows_fit(
                spec_metadata_dialog_area(frame_area, filtered_len, chrome),
                spec_tag_hint_height(frame_area, chrome),
                chrome,
            ) && l == spec_metadata_rects(
                spec_metadata_dialog_area(frame_area, filtered_len, chrome),
                spec_tag_hint_height(frame_area, chrome),
                chrome,
            ),
            None => !metadata_rows_fit(
                spec_metadata_dialog_area(frame_area, filtered_len, chrome),
                spec_tag_hint_height(frame_area, chrome),
                chrome,
            ),
        },
{
    let area = metadata_dialog_area(frame_area, filtered_len, chrome);
    let hints = tag_dialog_hint_height(frame_area, chrome);
    let inner = dialog_inner(area, chrome);
    let list_end = inner.y as u32 + 2 + inner.height.saturating_sub(5 + hints) as u32 + 1;
    let hints_y = inner.y as u32 + inner.height.saturating_sub(hints) as u32;
    if list_end <= 65535 && hints_y <= 65535 {
        Some(metadata_dialog_rects(area, hints, chrome))
    } else {
        None
    }
}


// ── The feelings dialog ──────────────────────────────────────────────────────

/// Lines the `Selected: …` summary takes once wrapped to the dialog's width:
/// at least one (`Selected: none`).
pub open spec fn spec_feelings_selected_lines(frame_area: Rect, selected: Seq<String>, chrome: ChromeStyle) -> int {
    let rows = spec_metadata_value_rows(
        SELECTED_LABEL_WIDTH as int,
        spec_hint_width(frame_area, LIST_DIALOG_WIDTH, chrome) as int,
        selected,
    ).len() as int;
    if rows > 1 { rows } else { 1 }
}

/// How many lines the picked feelings' summary takes; sizing the dialog and
/// drawing it both use this count.
pub fn feelings_selected_line_count(frame_area: Rect, selected: &[String], chrome: ChromeStyle) -> (lines: usize)
    ensures
        lines == spec_feelings_selected_lines(frame_area, selected@, chrome),
{
    let width = dialog_hint_width(frame_area, LIST_DIALOG_WIDTH, chrome);
    let rows = feelings_selected_rows(selected, width);
    if rows.len() > 1 {
        rows.len()
    } else {
        1
    }
}

/// Rows of the feelings dialog that are not its list: the title, two
/// separators, the search input, the summary with a blank row on each side,
/// and the hints.
pub open spec fn spec_feelings_chrome_height(frame_area: Rect, selected_lines: usize, chrome: ChromeStyle) -> int {
    6 + (selected_lines as u16) + spec_feelings_hint_height(frame_area, chrome)
}

/// `spec_feelings_chrome_height`, as the dialog computes it in `u16`.
pub fn feelings_dialog_chrome_height(frame_area: Rect, selected_lines: usize, chrome: ChromeStyle) -> (h: u16)
    requires
        spec_feelings_chrome_height(frame_area, selected_lines, chrome) <= u16::MAX,
    ensures
        h == spec_feelings_chrome_height(frame_area, selected_lines, chrome),
{
    1 + 2 + 1 + 1 + selected_lines as u16 + 1 + feelings_dialog_hint_height(frame_area, chrome)
}

/// Height of the feelings dialog: its frame, the rows around the list and
/// the visible list rows (at least one, for `(no matches)`), within the
/// frame's budget.
pub open spec fn spec_feelings_dialog_height(
    frame_area: Rect,
    all_len: usize,
    selected_lines: usize,
    chrome: ChromeStyle,
) -> int {
    frame_rows(chrome) + spec_feelings_chrome_height(frame_area, selected_lines, chrome) + visible_rows(
        all_len as u16,
        FEELINGS_DIALOG_MAX_VISIBLE_ROWS,
    )
}

pub open spec fn spec_feelings_dialog_area(
    frame_area: Rect,
    all_len: usize,
    selected_lines: usize,
    chrome: ChromeStyle,
) -> Rect {
    spec_centered_fixed_size(
        LIST_DIALOG_WIDTH,
        min16(spec_feelings_dialog_height(frame_area, all_len, selected_lines, chrome) as u16, height_budget(frame_area)),
        frame_area,
    )
}

/// Where the feelings dialog sits for `all_len` list rows and a summary of
/// `selected_lines` lines.
pub fn feelings_dialog_area(frame_area: Rect, all_len: usize, selected_lines: usize, chrome: ChromeStyle) -> (area: Rect)
    requires
        spec_feelings_dialog_height(frame_area, all_len, selected_lines, chrome) <= u16::MAX,
    ensures
        area == spec_feelings_dialog_area(frame_area, all_len, selected_lines, chrome),
        within(area, frame_area),
{
    let visible = clamp_rows(all_len, FEELINGS_DIALOG_MAX_VISIBLE_ROWS);
    let wanted = dialog_frame_rows(chrome) + feelings_dialog_chrome_height(frame_area, selected_lines, chrome) + visible;
    let budget = frame_area.height.saturating_sub(2);
    let h = if wanted < budget { wanted } else { budget };
    centered_rect_fixed_size(LIST_DIALOG_WIDTH, h, frame_area)
}

/// The rects of the feelings dialog.
#[derive(Clone, Copy, Debug, PartialEq, Eq)]
pub struct FeelingsDialogLayout {
    pub area: Rect,
    pub inner: Rect,
    pub list_top_separator: Rect,
    pub list: Rect,
    pub list_bottom_separator: Rect,
    pub input: Rect,
    pub selected: Rect,
    pub hints: Rect,
}

/// Whether the rows of a feelings dialog in `area` have `u16` coordinates.
pub open spec fn feelings_rows_fit(area: Rect, hint_height: u16, selected_height: u16, chrome: ChromeStyle) -> bool {
    let inner = spec_dialog_inner(area, chrome);
    let around = 6 + selected_height + hint_height;
    &&& around <= u16::MAX
    &&& inner.y + 2 + sat_sub(inner.height as int, around) + 1 + 2 <= u16::MAX
    &&& inner.y + sat_sub(inner.height as int, hint_height as int) <= u16::MAX
}

/// Inside the frame: the title, a separator, the list, a separator, the
/// search input, a blank row, the summary, and the hints at the bottom.
pub open spec fn spec_feelings_rects(area: Rect, hint_height: u16, selected_height: u16, chrome: ChromeStyle) -> FeelingsDialogLayout {
    let inner = spec_dialog_inner(area, chrome);
    let around = 6 + selected_height + hint_height;
    let list = band(inner, inner.y + 2, sat_sub(inner.height as int, around));
    let bottom = band(inner, list.y + list.height, 1);
    let input = band(inner, bottom.y + 1, 1);
    FeelingsDialogLayout {
        area,
        inner,
        list_top_separator: band(inner, inner.y + 1, 1),
        list,
        list_bottom_separator: bottom,
        input,
        selected: band(inner, input.y + 2, selected_height as int),
        hints: band(inner, inner.y + sat_sub(inner.height as int, hint_height as int), hint_height as int),
    }
}

/// The rows of a feelings dialog drawn in `area`, with `hint_height` rows of
/// hints and a summary `selected_height` rows tall.
pub fn feelings_dialog_rects(area: Rect, hint_height: u16, selected_height: u16, chrome: ChromeStyle) -> (layout: FeelingsDialogLayout)
    requires
        feelings_rows_fit(area, hint_height, selected_height, chrome),
    ensures
        layout == spec_feelings_rects(area, hint_height, selected_height, chrome),
{
    let inner = dialog_inner(area, chrome);
    let around = 1 + 2 + 1 + 1 + selected_height + 1 + hint_height;
    let list = Rect { x: inner.x, y: inner.y + 2, width: inner.width, height: inner.height.saturating_sub(around) };
    let list_top_separator = Rect { x: inner.x, y: inner.y + 1, width: inner.width, height: 1 };
    let list_bottom_separator = Rect { x: inner.x, y: list.y + list.height, width: inner.width, height: 1 };
    let input = Rect { x: inner.x, y: list_bottom_separator.y + 1, width: inner.width, height: 1 };
    let selected = Rect { x: inner.x, y: input.y + 2, width: inner.width, height: selected_height };
    let hints = Rect {
        x: inner.x,
        y: inner.y + inner.height.saturating_sub(hint_height),
        width: inner.width,
        height: hint_height,
    };
    FeelingsDialogLayout { area, inner, list_top_separator, list, list_bottom_separator, input, selected, hints }
}

/// Whether the feelings dialog for these arguments can be laid out in `u16`
/// coordinates.
pub open spec fn feelings_layout_fits(frame_area: Rect, all_len: usize, selected: Seq<String>, chrome: ChromeStyle) -> bool {
    let lines = spec_feelings_selected_lines(frame_area, selected, chrome);
    &&& spec_feelings_dialog_height(frame_area, all_len, lines as usize, chrome) <= u16::MAX
    &&& feelings_rows_fit(
        spec_feelings_dialog_area(frame_area, all_len, lines as usize, chrome),
        spec_feelings_hint_height(frame_area, chrome),
        lines as u16,
        chrome,
    )
}

pub open spec fn spec_feelings_dialog_layout(
    frame_area: Rect,
    all_len: usize,
    selected: Seq<String>,
    chrome: ChromeStyle,
) -> FeelingsDialogLayout {
    let lines = spec_feelings_selected_lines(frame_area, selected, chrome);
    spec_feelings_rects(
        spec_feelings_dialog_area(frame_area, all_len, lines as usize, chrome),
        spec_feelings_hint_height(frame_area, chrome),
        lines as u16,
        chrome,
    )
}

/// The feelings dialog's geometry for `all_len` list rows and the picked
/// feelings `selected`: the summary's height is counted at the dialog's own
/// width.
pub fn feelings_dialog_layout(frame_area: Rect, all_len: usize, selected: &[String], chrome: ChromeStyle) -> (layout: FeelingsDialogLayout)
    requires
        feelings_layout_fits(frame_area, all_len, selected@, chrome),
    ensures
        layout == spec_feelings_dialog_layout(frame_area, all_len, selected@, chrome),
{
    let lines = feelings_selected_line_count(frame_area, selected, chrome);
    let area = feelings_dialog_area(frame_area, all_len, lines, chrome);
    let hints = feelings_dialog_hint_height(frame_area, chrome);
    feelings_dialog_rects(area, hints, lines as u16, chrome)
}

/// `feelings_dialog_layout`, or `None` where the dialog would not fit in
/// `u16` coordinates.
pub fn checked_feelings_dialog_layout(frame_area: Rect, all_len: usize, selected: &[String], chrome: ChromeStyle) -> (layout: Option<
    FeelingsDialogLayout,
>)
    ensures
        match layout {
            Some(l) => feelings_layout_fits(frame_area, all_len, selected@, chrome) && l
                == spec_feelings_dialog_layout(frame_area, all_len, selected@, chrome),
            None => !feelings_layout_fits(frame_area, all_len, selected@, chrome),
        },
{
    let lines = feelings_selected_line_count(frame_area, selected, chrome);
    let hints = feelings_dialog_hint_height(frame_area, chrome);
    let visible = clamp_rows(all_len, FEELINGS_DIALOG_MAX_VISIBLE_ROWS);
    let around = 6 + lines as u16 as u32 + hints as u32;
    let wanted = dialog_frame_rows(chrome) as u32 + around + visible as u32;
    if wanted > 65535 {
        return None;
    }
    let area = feelings_dialog_area(frame_area, all_len, lines, chrome);
    let inner = dialog_inner(area, chrome);
    let selected_end = inner.y as u32 + 2 + (if inner.height as u32 > around { inner.height as u32 - around } else { 0 }) + 3;
    let hints_y = inner.y as u32 + inner.height.saturating_sub(hints) as u32;
    if around <= 65535 && selected_end <= 65535 && hints_y <= 65535 {
        Some(feelings_dialog_rects(area, hints, lines as u16, chrome))
    } else {
        None
    }
}


// ── The location dialog ──────────────────────────────────────────────────────

/// The lines one location label takes in a list `list_width` wide.
pub open spec fn label_line_count(label: Seq<char>, list_width: u16) -> int {
    let w = if list_width == 0 { 1 } else { list_width as int };
    let wrapped = first_lines(wrapped_lines(label, w, w), LOCATION_LIST_MAX_ITEM_LINES as int);
    if wrapped.len() == 0 { 1 } else { wrapped.len() as int }
}

/// The lines all of `labels` take in a list `list_width` wide.
pub open spec fn labels_line_total(labels: Seq<String>, list_width: u16) -> int
    decreases labels.len(),
{
    if labels.len() == 0 {
        0
    } else {
        labels_line_total(labels.drop_last(), list_width) + label_line_count(labels.last()@, list_width)
    }
}

/// The rows the location list takes once every label is wrapped at the
/// dialog's width, at least one: what the dialog is sized to, so wrapped
/// rows are not clipped.
pub open spec fn spec_location_list_rows(frame_area: Rect, labels: Seq<String>, chrome: ChromeStyle) -> int {
    let total = labels_line_total(labels, spec_hint_width(frame_area, LOCATION_DIALOG_WIDTH, chrome));
    if total > 1 { total } else { 1 }
}

pub fn location_list_rows(frame_area: Rect, labels: &[String], chrome: ChromeStyle) -> (rows: usize)
    requires
        3 * labels@.len() <= usize::MAX,
    ensures
        rows == spec_location_list_rows(frame_area, labels@, chrome),
{
    let width = dialog_hint_width(frame_area, LOCATION_DIALOG_WIDTH, chrome);
    let mut total: usize = 0;
    let mut i: usize = 0;
    while i < labels.len()
        invariant
            i <= labels@.len(),
            3 * labels@.len() <= usize::MAX,
            total == labels_line_total(labels@.take(i as int), width),
            total <= 3 * i,
        decreases labels@.len() - i,
    {
        assert(labels@.take(i + 1).drop_last() =~= labels@.take(i as int));
        let lines = location_row_lines(labels[i].as_str(), width);
        assert(lines@.len() == strings_view(lines@).len());
        total = total + lines.len();
        i += 1;
    }
    assert(labels@.take(labels@.len() as int) =~= labels@);
    if total > 1 {
        total
    } else {
        1
    }
}

/// Height of the location dialog: its frame, the rows above the list, the
/// spacer, the hints and the visible list rows, within the frame's budget.
pub open spec fn spec_location_dialog_height(frame_area: Rect, list_rows: usize, chrome: ChromeStyle) -> u16 {
    let wanted = frame_rows(chrome) + LOCATION_DIALOG_CHROME + LOCATION_DIALOG_HINTS_SPACER
        + spec_location_hint_height(frame_area, chrome) + visible_rows(
        list_rows as u16,
        LOCATION_DIALOG_MAX_VISIBLE_ROWS,
    );
    min16(wanted as u16, height_budget(frame_area))
}

pub open spec fn spec_location_dialog_area(frame_area: Rect, list_rows: usize, chrome: ChromeStyle) -> Rect {
    spec_centered_fixed_size(
        LOCATION_DIALOG_WIDTH,
        spec_location_dialog_height(frame_area, list_rows, chrome),
        frame_area,
    )
}

/// Where the location dialog sits for a list of `list_rows` rows.
pub fn location_dialog_area(frame_area: Rect, list_rows: usize, chrome: ChromeStyle) -> (area: Rect)
    ensures
        area == spec_location_dialog_area(frame_area, list_rows, chrome),
        within(area, frame_area),
{
    let hints = location_dialog_hint_height(frame_area, chrome);
    let visible = clamp_rows(list_rows, LOCATION_DIALOG_MAX_VISIBLE_ROWS);
    let wanted = dialog_frame_rows(chrome) + LOCATION_DIALOG_CHROME + LOCATION_DIALOG_HINTS_SPACER + hints
        + visible;
    let budget = frame_area.height.saturating_sub(2);
    let h = if wanted < budget { wanted } else { budget };
    centered_rect_fixed_size(LOCATION_DIALOG_WIDTH, h, frame_area)
}

/// The rects of the location dialog.
#[derive(Clone, Copy, Debug, PartialEq, Eq)]
pub struct LocationDialogLayout {
    pub area: Rect,
    pub title: Rect,
    pub title_separator: Rect,
    pub name: Rect,
    pub query: Rect,
    pub status: Rect,
    pub list_separator: Rect,
    pub heading: Rect,
    pub list: Rect,
    pub hints: Rect,
}

/// Whether the rows of a location dialog in `area` have `u16` coordinates.
pub open spec fn location_rows_fit(area: Rect, hint_height: u16, chrome: ChromeStyle) -> bool {
    let inner = spec_dialog_inner(area, chrome);
    &&& inner.y + LOCATION_DIALOG_CHROME <= u16::MAX
    &&& inner.y + sat_sub(inner.height as int, hint_height as int) <= u16::MAX
}

/// Inside the frame: the title (row 0), a separator, the address and name
/// inputs, a blank row, the status line, a separator and the list heading
/// (row 7); then the list, a blank row and the hints at the bottom.
pub open spec fn spec_location_rects(area: Rect, hint_height: u16, chrome: ChromeStyle) -> LocationDialogLayout {
    let inner = spec_dialog_inner(area, chrome);
    LocationDialogLayout {
        area,
        title: band(inner, inner.y + 0, 1),
        title_separator: band(inner, inner.y + 1, 1),
        query: band(inner, inner.y + 2, 1),
        name: band(inner, inner.y + 3, 1),
        status: band(inner, inner.y + 5, 1),
        list_separator: band(inner, inner.y + 6, 1),
        heading: band(inner, inner.y + 7, 1),
        list: band(
            inner,
            inner.y + LOCATION_DIALOG_CHROME,
            sat_sub(inner.height as int, LOCATION_DIALOG_CHROME + LOCATION_DIALOG_HINTS_SPACER + hint_height),
        ),
        hints: band(inner, inner.y + sat_sub(inner.height as int, hint_height as int), hint_height as int),
    }
}

/// The rows of a location dialog drawn in `area` with `hint_height` rows of
/// hints.
pub fn location_dialog_rects(area: Rect, hint_height: u16, chrome: ChromeStyle) -> (layout: LocationDialogLayout)
    requires
        LOCATION_DIALOG_CHROME + LOCATION_DIALOG_HINTS_SPACER + hint_height <= u16::MAX,
        location_rows_fit(area, hint_height, chrome),
    ensures
        layout == spec_location_rects(area, hint_height, chrome),
{
    let inner = dialog_inner(area, chrome);
    let list_height = inner.height.saturating_sub(LOCATION_DIALOG_CHROME + LOCATION_DIALOG_HINTS_SPACER + hint_height);
    let list = Rect { x: inner.x, y: inner.y + LOCATION_DIALOG_CHROME, width: inner.width, height: list_height };
    let hints = Rect {
        x: inner.x,
        y: inner.y + inner.height.saturating_sub(hint_height),
        width: inner.width,
        height: hint_height,
    };
    LocationDialogLayout {
        area,
        title: Rect { x: inner.x, y: inner.y, width: inner.width, height: 1 },
        title_separator: Rect { x: inner.x, y: inner.y + 1, width: inner.width, height: 1 },
        query: Rect { x: inner.x, y: inner.y + 2, width: inner.width, height: 1 },
        name: Rect { x: inner.x, y: inner.y + 3, width: inner.width, height: 1 },
        status: Rect { x: inner.x, y: inner.y + 5, width: inner.width, height: 1 },
        list_separator: Rect { x: inner.x, y: inner.y + 6, width: inner.width, height: 1 },
        heading: Rect { x: inner.x, y: inner.y + 7, width: inner.width, height: 1 },
        list,
        hints,
    }
}

/// Whether the location dialog for `labels` can be laid out in `u16`
/// coordinates.
pub open spec fn location_layout_fits(frame_area: Rect, labels: Seq<String>, chrome: ChromeStyle) -> bool {
    location_rows_fit(
        spec_location_dialog_area(frame_area, spec_location_list_rows(frame_area, labels, chrome) as usize, chrome),
        spec_location_hint_height(frame_area, chrome),
        chrome,
    )
}

pub open spec fn spec_location_dialog_layout(frame_area: Rect, labels: Seq<String>, chrome: ChromeStyle) -> LocationDialogLayout {
    spec_location_rects(
        spec_location_dialog_area(frame_area, spec_location_list_rows(frame_area, labels, chrome) as usize, chrome),
        spec_location_hint_height(frame_area, chrome),
        chrome,
    )
}

/// The location dialog's geometry for the list `labels`, sized to their
/// wrapped rows.
pub fn location_dialog_layout(frame_area: Rect, labels: &[String], chrome: ChromeStyle) -> (layout: LocationDialogLayout)
    requires
        3 * labels@.len() <= usize::MAX,
        location_layout_fits(frame_area, labels@, chrome),
    ensures
        layout == spec_location_dialog_layout(frame_area, labels@, chrome),
{
    let rows = location_list_rows(frame_area, labels, chrome);
    let area = location_dialog_area(frame_area, rows, chrome);
    let hints = location_dialog_hint_height(frame_area, chrome);
    location_dialog_rects(area, hints, chrome)
}

/// `location_dialog_layout`, or `None` where the dialog's rows would run
/// past the last `u16` row.
pub fn checked_location_dialog_layout(frame_area: Rect, labels: &[String], chrome: ChromeStyle) -> (layout: Option<
    LocationDialogLayout,
>)
    requires
        3 * labels@.len() <= usize::MAX,
    ensures
        match layout {
            Some(l) => location_layout_fits(frame_area, labels@, chrome) && l == spec_location_dialog_layout(
                frame_area,
                labels@,
                chrome,
            ),
            None => !location_layout_fits(frame_area, labels@, chrome),
        },
{
    let rows = location_list_rows(frame_area, labels, chrome);
    let area = location_dialog_area(frame_area, rows, chrome);
    let hints = location_dialog_hint_height(frame_area, chrome);
    let inner = dialog_inner(area, chrome);
    let list_y = inner.y as u32 + LOCATION_DIALOG_CHROME as u32;
    let hints_y = inner.y as u32 + inner.height.saturating_sub(hints) as u32;
    if list_y <= 65535 && hints_y <= 65535 {
        Some(location_dialog_rects(area, hints, chrome))
    } else {
        None
    }
}


// ── The theme picker ─────────────────────────────────────────────────────────

/// Height of the theme picker: its frame, the visible rows, a blank row and
/// the hints, within the frame's budget.
pub open spec fn spec_theme_picker_height(
    frame_area: Rect,
    len: usize,
    mode_switchable: bool,
    chrome_override: Option<ChromeStyle>,
    color_mode: ColorMode,
    chrome: ChromeStyle,
) -> u16 {
    let wanted = frame_rows(chrome) + 1 + visible_rows(len as u16, THEME_PICKER_MAX_VISIBLE_ROWS)
        + spec_theme_hint_height(frame_area, mode_switchable, chrome_override, color_mode, chrome);
    min16(wanted as u16, height_budget(frame_area))
}

pub open spec fn spec_theme_picker_area(
    frame_area: Rect,
    len: usize,
    mode_switchable: bool,
    chrome_override: Option<ChromeStyle>,
    color_mode: ColorMode,
    chrome: ChromeStyle,
) -> Rect {
    spec_centered_fixed_size(
        LIST_DIALOG_WIDTH,
        spec_theme_picker_height(frame_area, len, mode_switchable, chrome_override, color_mode, chrome),
        frame_area,
    )
}

/// Where the theme picker sits for `len` themes.
pub fn theme_picker_area(
    frame_area: Rect,
    len: usize,
    mode_switchable: bool,
    chrome_override: Option<ChromeStyle>,
    color_mode: ColorMode,
    chrome: ChromeStyle,
) -> (area: Rect)
    ensures
        area == spec_theme_picker_area(frame_area, len, mode_switchable, chrome_override, color_mode, chrome),
        within(area, frame_area),
{
    let hints = theme_picker_hint_height(frame_area, mode_switchable, chrome_override, color_mode, chrome);
    let visible = clamp_rows(len, THEME_PICKER_MAX_VISIBLE_ROWS);
    let wanted = dialog_frame_rows(chrome) + 1 + visible + hints;
    let budget = frame_area.height.saturating_sub(2);
    let h = if wanted < budget { wanted } else { budget };
    centered_rect_fixed_size(LIST_DIALOG_WIDTH, h, frame_area)
}

/// The rects of the theme picker.
#[derive(Clone, Copy, Debug, PartialEq, Eq)]
pub struct ThemePickerLayout {
    pub area: Rect,
    pub list: Rect,
    pub hints: Rect,
}

/// Whether the theme picker's hints in `area` start on a `u16` row.
pub open spec fn theme_rows_fit(area: Rect, hint_height: u16, chrome: ChromeStyle) -> bool {
    let inner = spec_dialog_inner(area, chrome);
    inner.y + sat_sub(inner.height as int, hint_height as int) <= u16::MAX
}

/// Inside the frame: the list from the top, a blank row, then the hints.
pub open spec fn spec_theme_rects(area: Rect, hint_height: u16, chrome: ChromeStyle) -> ThemePickerLayout {
    let inner = spec_dialog_inner(area, chrome);
    ThemePickerLayout {
        area,
        list: band(inner, inner.y as int, sat_sub(inner.height as int, 1 + hint_height)),
        hints: band(inner, inner.y + sat_sub(inner.height as int, hint_height as int), hint_height as int),
    }
}

pub fn theme_picker_rects(area: Rect, hint_height: u16, chrome: ChromeStyle) -> (layout: ThemePickerLayout)
    requires
        1 + hint_height <= u16::MAX,
        theme_rows_fit(area, hint_height, chrome),
    ensures
        layout == spec_theme_rects(area, hint_height, chrome),
{
    let inner = dialog_inner(area, chrome);
    let list = Rect { x: inner.x, y: inner.y, width: inner.width, height: inner.height.saturating_sub(1 + hint_height) };
    let hints = Rect {
        x: inner.x,
        y: inner.y + inner.height.saturating_sub(hint_height),
        width: inner.width,
        height: hint_height,
    };
    ThemePickerLayout { area, list, hints }
}

pub open spec fn theme_layout_fits(
    frame_area: Rect,
    len: usize,
    mode_switchable: bool,
    chrome_override: Option<ChromeStyle>,
    color_mode: ColorMode,
    chrome: ChromeStyle,
) -> bool {
    theme_rows_fit(
        spec_theme_picker_area(frame_area, len, mode_switchable, chrome_override, color_mode, chrome),
        spec_theme_hint_height(frame_area, mode_switchable, chrome_override, color_mode, chrome),
        chrome,
    )
}

pub open spec fn spec_theme_picker_layout(
    frame_area: Rect,
    len: usize,
    mode_switchable: bool,
    chrome_override: Option<ChromeStyle>,
    color_mode: ColorMode,
    chrome: ChromeStyle,
) -> ThemePickerLayout {
    spec_theme_rects(
        spec_theme_picker_area(frame_area, len, mode_switchable, chrome_override, color_mode, chrome),
        spec_theme_hint_height(frame_area, mode_switchable, chrome_override, color_mode, chrome),
        chrome,
    )
}

/// The theme picker's geometry, shared by the draw and the mouse hit-tests
/// so the click map cannot drift from what is drawn.
pub fn theme_picker_layout(
    frame_area: Rect,
    len: usize,
    mode_switchable: bool,
    chrome_override: Option<ChromeStyle>,
    color_mode: ColorMode,
    chrome: ChromeStyle,
) -> (layout: ThemePickerLayout)
    requires
        theme_layout_fits(frame_area, len, mode_switchable, chrome_override, color_mode, chrome),
    ensures
        layout == spec_theme_picker_layout(frame_area, len, mode_switchable, chrome_override, color_mode, chrome),
{
    let area = theme_picker_area(frame_area, len, mode_switchable, chrome_override, color_mode, chrome);
    let hints = theme_picker_hint_height(frame_area, mode_switchable, chrome_override, color_mode, chrome);
    theme_picker_rects(area, hints, chrome)
}

/// `theme_picker_layout`, or `None` where its hints would start past the
/// last `u16` row.
pub fn checked_theme_picker_layout(
    frame_area: Rect,
    len: usize,
    mode_switchable: bool,
    chrome_override: Option<ChromeStyle>,
    color_mode: ColorMode,
    chrome: ChromeStyle,
) -> (layout: Option<ThemePickerLayout>)
    ensures
        match layout {
            Some(l) => theme_layout_fits(frame_area, len, mode_switchable, chrome_override, color_mode, chrome)
                && l == spec_theme_picker_layout(frame_area, len, mode_switchable, chrome_override, color_mode, chrome),
            None => !theme_layout_fits(frame_area, len, mode_switchable, chrome_override, color_mode, chrome),
        },
{
    let area = theme_picker_area(frame_area, len, mode_switchable, chrome_override, color_mode, chrome);
    let hints = theme_picker_hint_height(frame_area, mode_switchable, chrome_override, color_mode, chrome);
    let inner = dialog_inner(area, chrome);
    if inner.y as u32 + inner.height.saturating_sub(hints) as u32 <= 65535 {
        Some(theme_picker_rects(area, hints, chrome))
    } else {
        None
    }
}

// ── The mood dialog ──────────────────────────────────────────────────────────

/// Columns of the label beside the mood bar and its value.
pub const MOOD_LABEL_WIDTH: u16 = 10;

/// Columns of the widest mood word (` Blissful`) on the right of the bar.
pub const MOOD_WORD_WIDTH: u16 = 9;

/// Height of the mood dialog: five rows, its frame and the hints, within the
/// frame's budget.
pub open spec fn spec_mood_dialog_area(frame_area: Rect, chrome: ChromeStyle) -> Rect {
    let wanted = 5 + frame_rows(chrome) + spec_mood_hint_height(frame_area, chrome);
    spec_centered_fixed_size(MOOD_DIALOG_WIDTH, min16(wanted as u16, height_budget(frame_area)), frame_area)
}

/// Where the mood dialog sits.
pub fn mood_dialog_area(frame_area: Rect, chrome: ChromeStyle) -> (area: Rect)
    ensures
        area == spec_mood_dialog_area(frame_area, chrome),
        within(area, frame_area),
{
    let wanted = 5 + dialog_frame_rows(chrome) + mood_dialog_hint_height(frame_area, chrome);
    let budget = frame_area.height.saturating_sub(2);
    let h = if wanted < budget { wanted } else { budget };
    centered_rect_fixed_size(MOOD_DIALOG_WIDTH, h, frame_area)
}

/// The rects of the mood dialog.
#[derive(Clone, Copy, Debug, PartialEq, Eq)]
pub struct MoodDialogLayout {
    pub area: Rect,
    pub inner: Rect,
    pub bar: Rect,
    pub value: Rect,
    pub hints: Rect,
}

/// The columns of a mood row: the label, the bar (at least three cells) and
/// the mood word.
pub open spec fn mood_row_rules() -> Seq<SizeRule> {
    seq![SizeRule::Length(MOOD_LABEL_WIDTH), SizeRule::Min(3), SizeRule::Length(MOOD_WORD_WIDTH)]
}

/// Whether the rows of a mood dialog in `area` have `u16` coordinates.
pub open spec fn mood_rows_fit(area: Rect, hint_height: u16, chrome: ChromeStyle) -> bool {
    let inner = spec_dialog_inner(area, chrome);
    &&& inner.y + 3 <= u16::MAX
    &&& inner.y + sat_sub(inner.height as int, hint_height as int) <= u16::MAX
}

/// The middle column of a mood row when the label, the word and three bar
/// cells fit it: the cells between the label and the word.
pub open spec fn spec_mood_column(row: Rect) -> Rect {
    Rect {
        x: (row.x + MOOD_LABEL_WIDTH) as u16,
        width: (span_on(row, Axis::Horizontal) - MOOD_LABEL_WIDTH - MOOD_WORD_WIDTH) as u16,
        ..row
    }
}

/// What any outcome of a mood row's split gives its middle column: a part
/// of the row, and exactly the cells between the label and the word when
/// they and three bar cells fit.
pub open spec fn mood_column_of(row: Rect, column: Rect) -> bool {
    &&& part_of(column, row, Axis::Horizontal)
    &&& MOOD_LABEL_WIDTH + MOOD_WORD_WIDTH + 3 <= span_on(row, Axis::Horizontal) ==> column == spec_mood_column(row)
}

/// Inside the frame: the bar on row 1 and the value on row 3 (each the
/// middle column of its row, as `bar` and `value` are given), the hints at
/// the bottom.
pub open spec fn spec_mood_rects(area: Rect, hint_height: u16, chrome: ChromeStyle, bar: Rect, value: Rect) -> MoodDialogLayout {
    let inner = spec_dialog_inner(area, chrome);
    MoodDialogLayout {
        area,
        inner,
        bar,
        value,
        hints: band(inner, inner.y + sat_sub(inner.height as int, hint_height as int), hint_height as int),
    }
}

/// The mood dialog's rects for any outcome of its rows' splits.
pub open spec fn mood_rects_of(area: Rect, hint_height: u16, chrome: ChromeStyle, layout: MoodDialogLayout) -> bool {
    let inner = spec_dialog_inner(area, chrome);
    &&& layout == spec_mood_rects(area, hint_height, chrome, layout.bar, layout.value)
    &&& mood_column_of(band(inner, inner.y + 1, 1), layout.bar)
    &&& mood_column_of(band(inner, inner.y + 3, 1), layout.value)
}

proof fn lemma_mood_row_split(row: Rect, rules: Seq<SizeRule>, parts: Seq<Rect>)
    requires
        rules == mood_row_rules(),
        parts.len() == 3,
        forall|i: int| 0 <= i < 3 ==> part_of(#[trigger] parts[i], row, Axis::Horizontal),
        crate::split::plain_fit(rules, span_on(row, Axis::Horizontal)) ==> forall|i: int|
            0 <= i < 3 ==> crate::split::start_on(#[trigger] parts[i], Axis::Horizontal) == crate::split::start_on(
                row,
                Axis::Horizontal,
            ) + crate::split::plain_start(rules, span_on(row, Axis::Horizontal), i) && crate::split::size_on(
                parts[i],
                Axis::Horizontal,
            ) == crate::split::plain_size(rules, span_on(row, Axis::Horizontal), i),
    ensures
        mood_column_of(row, parts[1]),
{
    assert(part_of(parts[1], row, Axis::Horizontal));
    let span = span_on(row, Axis::Horizontal);
        reveal_with_fuel(crate::split::lengths_upto, 4);
        reveal_with_fuel(crate::split::plain_start, 4);
    if MOOD_LABEL_WIDTH + MOOD_WORD_WIDTH + 3 <= span {
        assert(crate::split::lengths_upto(rules, 3) == MOOD_LABEL_WIDTH + MOOD_WORD_WIDTH);
        assert(crate::split::plain_fit(rules, span));
        assert(crate::split::plain_start(rules, span, 1) == MOOD_LABEL_WIDTH);
        assert(parts[1] == spec_mood_column(row));
    }
}

fn mood_row_rule_list() -> (rules: Vec<SizeRule>)
    ensures
        rules@ == mood_row_rules(),
{
    let mut rules: Vec<SizeRule> = Vec::new();
    rules.push(SizeRule::Length(MOOD_LABEL_WIDTH));
    rules.push(SizeRule::Min(3));
    rules.push(SizeRule::Length(MOOD_WORD_WIDTH));
    assert(rules@ =~= mood_row_rules());
    rules
}

pub fn mood_dialog_rects(area: Rect, hint_height: u16, chrome: ChromeStyle) -> (layout: MoodDialogLayout)
    requires
        mood_rows_fit(area, hint_height, chrome),
    ensures
        mood_rects_of(area, hint_height, chrome, layout),
{
    let inner = dialog_inner(area, chrome);
    let rules = mood_row_rule_list();
    let bar_row = Rect { x: inner.x, y: inner.y + 1, width: inner.width, height: 1 };
    let bar_parts = split_area(bar_row, Axis::Horizontal, Packing::Start, &rules);
    let value_row = Rect { x: inner.x, y: inner.y + 3, width: inner.width, height: 1 };
    let value_parts = split_area(value_row, Axis::Horizontal, Packing::Start, &rules);
    let hints = Rect {
        x: inner.x,
        y: inner.y + inner.height.saturating_sub(hint_height),
        width: inner.width,
        height: hint_height,
    };
    proof {
        lemma_mood_row_split(bar_row, rules@, bar_parts@);
        lemma_mood_row_split(value_row, rules@, value_parts@);
    }
    MoodDialogLayout { area, inner, bar: bar_parts[1], value: value_parts[1], hints }
}

pub open spec fn mood_layout_fits(frame_area: Rect, chrome: ChromeStyle) -> bool {
    mood_rows_fit(spec_mood_dialog_area(frame_area, chrome), spec_mood_hint_height(frame_area, chrome), chrome)
}

/// The mood dialog's geometry.
pub fn mood_dialog_layout(frame_area: Rect, chrome: ChromeStyle) -> (layout: MoodDialogLayout)
    requires
        mood_layout_fits(frame_area, chrome),
    ensures
        mood_rects_of(spec_mood_dialog_area(frame_area, chrome), spec_mood_hint_height(frame_area, chrome), chrome, layout),
{
    let area = mood_dialog_area(frame_area, chrome);
    let hints = mood_dialog_hint_height(frame_area, chrome);
    mood_dialog_rects(area, hints, chrome)
}

/// `mood_dialog_layout`, or `None` where its rows would run past the last
/// `u16` row.
pub fn checked_mood_dialog_layout(frame_area: Rect, chrome: ChromeStyle) -> (layout: Option<MoodDialogLayout>)
    ensures
        match layout {
            Some(l) => mood_layout_fits(frame_area, chrome) && mood_rects_of(
                spec_mood_dialog_area(frame_area, chrome),
                spec_mood_hint_height(frame_area, chrome),
                chrome,
                l,
            ),
            None => !mood_layout_fits(frame_area, chrome),
        },
{
    let area = mood_dialog_area(frame_area, chrome);
    let hints = mood_dialog_hint_height(frame_area, chrome);
    let inner = dialog_inner(area, chrome);
    if inner.y as u32 + 3 <= 65535 && inner.y as u32 + inner.height.saturating_sub(hints) as u32 <= 65535 {
        Some(mood_dialog_rects(area, hints, chrome))
    } else {
        None
    }
}


// ── The editor's discard confirmation ────────────────────────────────────────

/// Size of the editor's "Discard unsaved changes?" dialog.
pub const DISCARD_DIALOG_WIDTH: u16 = 42;
pub const DISCARD_DIALOG_HEIGHT: u16 = 5;

/// Where the discard confirmation sits.
pub fn editor_discard_confirm_area(frame_area: Rect) -> (area: Rect)
    ensures
        area == spec_centered_fixed_size(DISCARD_DIALOG_WIDTH, DISCARD_DIALOG_HEIGHT, frame_area),
        within(area, frame_area),
{
    centered_rect_fixed_size(DISCARD_DIALOG_WIDTH, DISCARD_DIALOG_HEIGHT, frame_area)
}

/// The discard confirmation's content rect.
pub open spec fn discard_inner(frame_area: Rect, chrome: ChromeStyle) -> Rect {
    spec_dialog_inner(spec_centered_fixed_size(DISCARD_DIALOG_WIDTH, DISCARD_DIALOG_HEIGHT, frame_area), chrome)
}

/// Which of the discard confirmation's buttons a click lands on: `Some(true)`
/// to discard, `Some(false)` to keep editing.
pub fn editor_discard_choice_at_point(frame_area: Rect, col: u16, row: u16, chrome: ChromeStyle) -> (choice: Option<bool>)
    requires
        buttons_fit(discard_inner(frame_area, chrome)),
    ensures
        choice == spec_confirm_button_at(discard_inner(frame_area, chrome), col as int, row as int),
{
    let inner = dialog_inner(editor_discard_confirm_area(frame_area), chrome);
    confirm_button_at(inner, col, row)
}

/// `editor_discard_choice_at_point`, or `None` where the buttons would run
/// past the last `u16` column or row.
pub fn checked_editor_discard_choice_at_point(frame_area: Rect, col: u16, row: u16, chrome: ChromeStyle) -> (choice: Option<
    Option<bool>,
>)
    ensures
        match choice {
            Some(c) => buttons_fit(discard_inner(frame_area, chrome)) && c == spec_confirm_button_at(
                discard_inner(frame_area, chrome),
                col as int,
                row as int,
            ),
            None => !buttons_fit(discard_inner(frame_area, chrome)),
        },
{
    let inner = dialog_inner(editor_discard_confirm_area(frame_area), chrome);
    let last_row = inner.y as u32 + inner.height.saturating_sub(1) as u32;
    let no_end = inner.x as u32 + inner.width.saturating_sub(34) as u32 / 2 + 18;
    if last_row <= 65535 && no_end <= 65535 {
        Some(confirm_button_at(inner, col, row))
    } else {
        None
    }
}


// ── The delete confirmation ──────────────────────────────────────────────────

/// What a delete confirmation is about.
#[derive(Debug)]
pub enum DeleteContext {
    /// An entry: one with a body goes to the trash, an empty one is deleted.
    Entry { has_body: bool },
    /// A journal (named as it is displayed), with how many of its entries go
    /// to the trash and how many are deleted outright.
    Journal { display_name: String, trash_count: usize, delete_count: usize },
}

/// The second line of a journal's delete confirmation.
pub open spec fn journal_counts_line(trash: nat, delete: nat) -> Seq<char> {
    if trash == 0 {
        decimal(delete) + " entries deleted permanently"@
    } else if delete == 0 {
        decimal(trash) + " entries moved to trash"@
    } else {
        decimal(trash) + " entries → trash, "@ + decimal(delete) + " deleted"@
    }
}

/// The height a delete confirmation needs and its message: one line for an
/// entry, two for a journal, above the row of buttons.
pub open spec fn spec_confirm_delete_content(ctx: DeleteContext, chrome: ChromeStyle) -> (int, Seq<char>) {
    match ctx {
        DeleteContext::Entry { has_body } => (
            3 + frame_rows(chrome),
            if has_body { "Move entry to trash?"@ } else { "Permanently delete entry?"@ },
        ),
        DeleteContext::Journal { display_name, trash_count, delete_count } => (
            4 + frame_rows(chrome),
            "Delete journal '"@ + display_name@ + "'?\n"@ + journal_counts_line(trash_count as nat, delete_count as nat),
        ),
    }
}

pub fn confirm_delete_content(ctx: &DeleteContext, chrome: ChromeStyle) -> (content: (u16, String))
    ensures
        content.0 == spec_confirm_delete_content(*ctx, chrome).0,
        content.1@ == spec_confirm_delete_content(*ctx, chrome).1,
{
    match ctx {
        DeleteContext::Entry { has_body } => {
            let message = if *has_body {
                string_of("Move entry to trash?")
            } else {
                string_of("Permanently delete entry?")
            };
            (3 + dialog_frame_rows(chrome), message)
        },
        DeleteContext::Journal { display_name, trash_count, delete_count } => {
            let mut message = string_of("Delete journal '");
            message.append(display_name.as_str());
            message.append("'?\n");
            let trash = decimal_string(*trash_count as u64);
            let delete = decimal_string(*delete_count as u64);
            if *trash_count == 0 {
                message.append(delete.as_str());
                message.append(" entries deleted permanently");
            } else if *delete_count == 0 {
                message.append(trash.as_str());
                message.append(" entries moved to trash");
            } else {
                message.append(trash.as_str());
                message.append(" entries → trash, ");
                message.append(delete.as_str());
                message.append(" deleted");
            }
            (4 + dialog_frame_rows(chrome), message)
        },
    }
}

} // verus!
