//! The table popups: the metadata chooser, the settings menu and the editor's
//! shortcut reference, plus the count labels of the panels.
use vstd::prelude::*;
use crate::text::{decimal, decimal_string, display_width, repeat_char, repeat_string, str_width, string_of};
use crate::hints::{key_chip, key_chip_text};

verus! {

/// The characters of every cell of a row.
pub open spec fn row_text(row: Seq<String>) -> Seq<Seq<char>> {
    Seq::new(row.len(), |j: int| row[j]@)
}

/// The characters of every cell of a row of string slices.
pub open spec fn strs_text(cells: Seq<&str>) -> Seq<Seq<char>> {
    Seq::new(cells.len(), |j: int| cells[j]@)
}

/// The characters of every cell, row by row.
pub open spec fn rows_text(rows: Seq<Vec<String>>) -> Seq<Seq<Seq<char>>> {
    Seq::new(rows.len(), |i: int| row_text(rows[i]@))
}

/// One table row of owned cells.
fn row_of(cells: &[&str]) -> (row: Vec<String>)
    ensures
        row_text(row@) == strs_text(cells@),
{
    let mut row: Vec<String> = Vec::new();
    let mut i = 0usize;
    while i < cells.len()
        invariant
            i <= cells@.len(),
            row@.len() == i,
            row_text(row@) == strs_text(cells@.take(i as int)),
        decreases cells@.len() - i,
    {
        let ghost before = row@;
        let cell = string_of(cells[i]);
        row.push(cell);
        proof {
            assert forall|j: int| 0 <= j < row@.len() implies #[trigger] row_text(row@)[j]
                == strs_text(cells@.take(i + 1))[j] by {
                if j < i {
                    assert(row@[j] == before[j]);
                    assert(row_text(before)[j] == strs_text(cells@.take(i as int))[j]);
                }
            }
        }
        i += 1;
        assert(row_text(row@) =~= strs_text(cells@.take(i as int)));
    }
    assert(cells@.take(cells@.len() as int) =~= cells@);
    row
}

/// A table popup's content: title, column headers, data rows, the key column
/// drawn as a chip, and the bottom-border footer label.
#[derive(Debug)]
pub struct TableDialog<'a> {
    pub title: &'static str,
    pub headers: Vec<&'static str>,
    pub rows: &'a [Vec<String>],
    pub key_col: usize,
    pub footer: &'static str,
}

/// Where the metadata chooser is shown. The editor gates its metadata keys
/// behind it ("press key"); the viewer's keys work at any time, so there the
/// popup is only a reference.
#[derive(Clone, Copy, Debug, PartialEq, Eq, Structural)]
pub enum MetadataMenuMode {
    Editor,
    Viewer,
}

impl MetadataMenuMode {
    /// The chooser's footer label for this mode.
    pub fn footer(self) -> (label: &'static str)
        ensures
            label == (match self {
                MetadataMenuMode::Editor => "press key · esc",
                MetadataMenuMode::Viewer => "reference · esc",
            }),
    {
        match self {
            Self::Editor => "press key · esc",
            Self::Viewer => "reference · esc",
        }
    }
}

/// The metadata chooser's rows: each key and the metadata it adds.
pub open spec fn spec_metadata_menu_rows() -> Seq<Seq<Seq<char>>> {
    seq![
        seq!["t"@, "Tags"@],
        seq!["p"@, "People"@],
        seq!["a"@, "Activities"@],
        seq!["f"@, "Feelings"@],
        seq!["m"@, "Mood"@],
        seq!["l"@, "Location"@],
    ]
}

/// The metadata chooser's rows: each key and the metadata it adds.
pub fn metadata_menu_rows() -> (rows: Vec<Vec<String>>)
    ensures
        rows_text(rows@) == spec_metadata_menu_rows(),
{
    let mut rows: Vec<Vec<String>> = Vec::new();
    rows.push(row_of(&["t", "Tags"]));
    rows.push(row_of(&["p", "People"]));
    rows.push(row_of(&["a", "Activities"]));
    rows.push(row_of(&["f", "Feelings"]));
    rows.push(row_of(&["m", "Mood"]));
    rows.push(row_of(&["l", "Location"]));
    assert(rows_text(rows@) =~= spec_metadata_menu_rows()) by {
        assert forall|i: int| 0 <= i < rows@.len() implies #[trigger] rows_text(rows@)[i]
            =~= spec_metadata_menu_rows()[i] by {
        }
    }
    rows
}

/// The settings menu's rows: each key and the setting it opens.
pub open spec fn spec_settings_menu_rows() -> Seq<Seq<Seq<char>>> {
    seq![
        seq!["t"@, "Theme…"@],
    ]
}

/// The settings menu's rows: each key and the setting it opens.
pub fn settings_menu_rows() -> (rows: Vec<Vec<String>>)
    ensures
        rows_text(rows@) == spec_settings_menu_rows(),
{
    let mut rows: Vec<Vec<String>> = Vec::new();
    rows.push(row_of(&["t", "Theme…"]));
    assert(rows_text(rows@) =~= spec_settings_menu_rows()) by {
        assert forall|i: int| 0 <= i < rows@.len() implies #[trigger] rows_text(rows@)[i]
            =~= spec_settings_menu_rows()[i] by {
        }
    }
    rows
}

/// The editor's shortcut reference: group (on its first row only), keys,
/// action.
pub open spec fn spec_editor_shortcut_rows() -> Seq<Seq<Seq<char>>> {
    seq![
        seq!["File"@, "ctrl+s"@, "Save"@],
        seq![""@, "ctrl+o"@, "Fullscreen"@],
        seq![""@, "ctrl+g"@, "Metadata"@],
        seq![""@, "esc"@, "Discard"@],
        seq!["Edit"@, "ctrl+a"@, "Select all"@],
        seq![""@, "ctrl+u"@, "Undo"@],
        seq![""@, "ctrl+r"@, "Redo"@],
        seq![""@, "ctrl+x"@, "Cut"@],
        seq![""@, "ctrl+c"@, "Copy"@],
        seq![""@, "ctrl+y"@, "Paste"@],
        seq![""@, "ctrl+k"@, "Cut to line end"@],
        seq![""@, "ctrl+w"@, "Delete word"@],
        seq!["Move"@, "arrows"@, "Move"@],
        seq![""@, "shift+move"@, "Select"@],
        seq![""@, "ctrl+←/→"@, "Word"@],
        seq![""@, "home/end"@, "Line start/end"@],
        seq![""@, "ctrl+↑/↓"@, "Paragraph"@],
        seq![""@, "pgup/pgdn"@, "Page"@],
    ]
}

/// The editor's shortcut reference rows: every key the editor honors, grouped
/// by purpose, the group named on its first row only.
pub fn editor_shortcut_rows() -> (rows: Vec<Vec<String>>)
    ensures
        rows_text(rows@) == spec_editor_shortcut_rows(),
{
    let mut rows: Vec<Vec<String>> = Vec::new();
    rows.push(row_of(&["File", "ctrl+s", "Save"]));
    rows.push(row_of(&["", "ctrl+o", "Fullscreen"]));
    rows.push(row_of(&["", "ctrl+g", "Metadata"]));
    rows.push(row_of(&["", "esc", "Discard"]));
    rows.push(row_of(&["Edit", "ctrl+a", "Select all"]));
    rows.push(row_of(&["", "ctrl+u", "Undo"]));
    rows.push(row_of(&["", "ctrl+r", "Redo"]));
    rows.push(row_of(&["", "ctrl+x", "Cut"]));
    rows.push(row_of(&["", "ctrl+c", "Copy"]));
    rows.push(row_of(&["", "ctrl+y", "Paste"]));
    rows.push(row_of(&["", "ctrl+k", "Cut to line end"]));
    rows.push(row_of(&["", "ctrl+w", "Delete word"]));
    rows.push(row_of(&["Move", "arrows", "Move"]));
    rows.push(row_of(&["", "shift+move", "Select"]));
    rows.push(row_of(&["", "ctrl+←/→", "Word"]));
    rows.push(row_of(&["", "home/end", "Line start/end"]));
    rows.push(row_of(&["", "ctrl+↑/↓", "Paragraph"]));
    rows.push(row_of(&["", "pgup/pgdn", "Page"]));
    assert(rows_text(rows@) =~= spec_editor_shortcut_rows()) by {
        assert forall|i: int| 0 <= i < rows@.len() implies #[trigger] rows_text(rows@)[i]
            =~= spec_editor_shortcut_rows()[i] by {
        }
    }
    rows
}

/// The metadata chooser's table.
pub fn metadata_menu_dialog(rows: &[Vec<String>], mode: MetadataMenuMode) -> (dialog: TableDialog<'_>)
    ensures
        dialog.title == "Add Metadata",
        dialog.headers@ == seq!["Key", "Add"],
        dialog.rows == rows,
        dialog.key_col == 0,
        dialog.footer == (match mode {
            MetadataMenuMode::Editor => "press key · esc",
            MetadataMenuMode::Viewer => "reference · esc",
        }),
{
    let mut headers = Vec::new();
    headers.push("Key");
    headers.push("Add");
    assert(headers@ =~= seq!["Key", "Add"]);
    TableDialog { title: "Add Metadata", headers, rows, key_col: 0, footer: mode.footer() }
}

/// The settings menu's table.
pub fn settings_menu_dialog(rows: &[Vec<String>]) -> (dialog: TableDialog<'_>)
    ensures
        dialog.title == "Settings",
        dialog.headers@ == seq!["Key", "Setting"],
        dialog.rows == rows,
        dialog.key_col == 0,
        dialog.footer == "enter select · esc close",
{
    let mut headers = Vec::new();
    headers.push("Key");
    headers.push("Setting");
    assert(headers@ =~= seq!["Key", "Setting"]);
    TableDialog { title: "Settings", headers, rows, key_col: 0, footer: "enter select · esc close" }
}

/// The editor shortcut reference's table; its key column is the second.
pub fn editor_shortcut_dialog(rows: &[Vec<String>]) -> (dialog: TableDialog<'_>)
    ensures
        dialog.title == "Editor Shortcuts",
        dialog.headers@ == seq!["Group", "Key", "Action"],
        dialog.rows == rows,
        dialog.key_col == 1,
        dialog.footer == "reference · esc",
{
    let mut headers = Vec::new();
    headers.push("Group");
    headers.push("Key");
    headers.push("Action");
    assert(headers@ =~= seq!["Group", "Key", "Action"]);
    TableDialog { title: "Editor Shortcuts", headers, rows, key_col: 1, footer: "reference · esc" }
}

/// `count` with the singular or plural noun: `1 entry`, `2 entries`.
pub fn count_label(count: usize, singular: &str, plural: &str) -> (label: String)
    ensures
        label@ == decimal(count as nat) + seq![' '] + (if count == 1 {
            singular@
        } else {
            plural@
        }),
{
    let mut label = decimal_string(count as u64);
    label.append(" ");
    if count == 1 {
        label.append(singular);
    } else {
        label.append(plural);
    }
    proof {
        reveal_strlit(" ");
    }
    assert(label@ =~= decimal(count as nat) + seq![' '] + (if count == 1 {
        singular@
    } else {
        plural@
    }));
    label
}

/// `a + b`, capped at `usize::MAX`.
pub open spec fn sat_add_usize(a: int, b: int) -> int {
    if a + b > usize::MAX { usize::MAX as int } else { a + b }
}

/// The width a data cell claims in column `c`: its display width, plus the
/// two blanks of the key chip in a non-empty key-column cell.
pub open spec fn cell_claim(text: Seq<char>, c: int, key_col: int) -> int {
    if c == key_col && text.len() > 0 {
        sat_add_usize(display_width(text) as int, 2)
    } else {
        display_width(text) as int
    }
}

/// The widest claim in column `c` among the first `k` rows, and the header's.
pub open spec fn column_claim(headers: Seq<&str>, rows: Seq<Vec<String>>, key_col: int, c: int, k: int) -> int
    decreases k,
{
    if k <= 0 {
        display_width(headers[c]@) as int
    } else {
        let prev = column_claim(headers, rows, key_col, c, k - 1);
        let here = cell_claim(rows[k - 1]@[c]@, c, key_col);
        if here > prev { here } else { prev }
    }
}

/// Every row has a cell for each header.
pub open spec fn rows_cover(headers: Seq<&str>, rows: Seq<Vec<String>>) -> bool {
    forall|r: int| 0 <= r < rows.len() ==> (#[trigger] rows[r])@.len() >= headers.len()
}

/// The content width of each column of a dialog table: the widest of its
/// cells (a key chip counting its two blanks) and its header.
pub fn dialog_widths(headers: &[&str], rows: &[Vec<String>], key_col: usize) -> (widths: Vec<usize>)
    requires
        rows_cover(headers@, rows@),
    ensures
        widths@.len() == headers@.len(),
        forall|c: int|
            0 <= c < headers@.len() ==> (#[trigger] widths@[c]) == column_claim(
                headers@,
                rows@,
                key_col as int,
                c,
                rows@.len() as int,
            ),
{
    let mut widths: Vec<usize> = Vec::new();
    let mut c: usize = 0;
    while c < headers.len()
        invariant
            c <= headers@.len(),
            rows_cover(headers@, rows@),
            widths@.len() == c,
            forall|j: int|
                0 <= j < c ==> (#[trigger] widths@[j]) == column_claim(
                    headers@,
                    rows@,
                    key_col as int,
                    j,
                    rows@.len() as int,
                ),
        decreases headers@.len() - c,
    {
        let mut widest = str_width(headers[c]);
        let mut r: usize = 0;
        while r < rows.len()
            invariant
                c < headers@.len(),
                rows_cover(headers@, rows@),
                r <= rows@.len(),
                widest == column_claim(headers@, rows@, key_col as int, c as int, r as int),
            decreases rows@.len() - r,
        {
            assert(rows@[r as int]@.len() >= headers@.len());
            let cell = rows[r][c].as_str();
            let w = str_width(cell);
            let claim = if c == key_col && cell.unicode_len() > 0 {
                w.saturating_add(2)
            } else {
                w
            };
            if claim > widest {
                widest = claim;
            }
            r += 1;
        }
        widths.push(widest);
        c += 1;
    }
    widths
}

/// `text` padded with blanks on the right to `width` display columns.
pub open spec fn spec_pad_display(text: Seq<char>, width: int) -> Seq<char> {
    let pad = if display_width(text) < width { width - display_width(text) } else { 0 };
    text + repeat_char(' ', pad as nat)
}

/// `text` padded with blanks on the right to `width` display columns.
pub fn pad_display(text: &str, width: usize) -> (padded: String)
    ensures
        padded@ == spec_pad_display(text@, width as int),
{
    let pad = width.saturating_sub(str_width(text));
    let mut padded = string_of(text);
    let blanks = repeat_string(' ', pad);
    padded.append(blanks.as_str());
    padded
}

/// The widest key chip among the first `k` bindings.
pub open spec fn chip_width_upto(items: Seq<(&str, &str)>, k: int) -> int
    decreases k,
{
    if k <= 0 {
        0
    } else {
        let prev = chip_width_upto(items, k - 1);
        let here = display_width(key_chip(items[k - 1].0@)) as int;
        if here > prev { here } else { prev }
    }
}

/// The widest key chip of a shortcut section: every action starts two
/// columns past it, so chips and actions line up.
pub fn max_chip_width(items: &[(&str, &str)]) -> (width: usize)
    ensures
        width == chip_width_upto(items@, items@.len() as int),
{
    let mut widest: usize = 0;
    let mut i: usize = 0;
    while i < items.len()
        invariant
            i <= items@.len(),
            widest == chip_width_upto(items@, i as int),
        decreases items@.len() - i,
    {
        let chip = key_chip_text(items[i].0);
        let w = str_width(chip.as_str());
        if w > widest {
            widest = w;
        }
        i += 1;
    }
    widest
}

/// The widest line among the first `k` bindings of a section: the common chip
/// column, two blanks, then the action.
pub open spec fn section_width_upto(items: Seq<(&str, &str)>, chip_w: int, k: int) -> int
    decreases k,
{
    if k <= 0 {
        0
    } else {
        let prev = section_width_upto(items, chip_w, k - 1);
        let here = sat_add_usize(sat_add_usize(chip_w, 2), display_width(items[k - 1].1@) as int);
        if here > prev { here } else { prev }
    }
}

/// The width a shortcut section renders at, so every column of the help grid
/// can be sized to a common width.
pub fn section_width(items: &[(&str, &str)]) -> (width: usize)
    ensures
        width == section_width_upto(items@, chip_width_upto(items@, items@.len() as int), items@.len() as int),
{
    let chip_w = max_chip_width(items);
    let mut widest: usize = 0;
    let mut i: usize = 0;
    while i < items.len()
        invariant
            i <= items@.len(),
            chip_w == chip_width_upto(items@, items@.len() as int),
            widest == section_width_upto(items@, chip_w as int, i as int),
        decreases items@.len() - i,
    {
        let w = chip_w.saturating_add(2).saturating_add(str_width(items[i].1));
        if w > widest {
            widest = w;
        }
        i += 1;
    }
    widest
}


/// One feeling with its count: `calm (5)`.
pub open spec fn feeling_with_count(name: Seq<char>, count: nat) -> Seq<char> {
    name + " ("@ + decimal(count) + ")"@
}

/// The first `k` feelings with their counts, joined by `, `.
pub open spec fn feelings_joined(feelings: Seq<(String, usize)>, k: int) -> Seq<char>
    decreases k,
{
    if k <= 0 {
        seq![]
    } else if k == 1 {
        feeling_with_count(feelings[0].0@, feelings[0].1 as nat)
    } else {
        feelings_joined(feelings, k - 1) + ", "@ + feeling_with_count(feelings[k - 1].0@, feelings[k - 1].1 as nat)
    }
}

/// The feelings most associated with a value, as `calm (5), grateful (3)`,
/// or `—` when there are none.
pub open spec fn spec_feelings_label(feelings: Seq<(String, usize)>) -> Seq<char> {
    if feelings.len() == 0 {
        "—"@
    } else {
        feelings_joined(feelings, feelings.len() as int)
    }
}

pub fn feelings_label(top_feelings: &[(String, usize)]) -> (label: String)
    ensures
        label@ == spec_feelings_label(top_feelings@),
{
    if top_feelings.len() == 0 {
        return string_of("—");
    }
    let mut label = String::new();
    let mut k: usize = 0;
    while k < top_feelings.len()
        invariant
            k <= top_feelings@.len(),
            label@ == feelings_joined(top_feelings@, k as int),
        decreases top_feelings@.len() - k,
    {
        if k > 0 {
            label.append(", ");
        }
        label.append(top_feelings[k].0.as_str());
        label.append(" (");
        let count = decimal_string(top_feelings[k].1 as u64);
        label.append(count.as_str());
        label.append(")");
        k += 1;
        proof {
            if k == 1 {
                assert(feelings_joined(top_feelings@, 0) =~= Seq::<char>::empty());
            }
        }
        assert(label@ =~= feelings_joined(top_feelings@, k as int));
    }
    label
}

} // verus!
