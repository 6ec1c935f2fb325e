//! What the list dialogs draw in their lists: how far a list is scrolled,
//! which row is drawn selected and which hover-lifted, and the text of each
//! row of the feelings and location dialogs.
use vstd::prelude::*;
use crate::geometry::sat_sub;
use crate::scroll::min_int;
use crate::surface::location_row_lines;
use crate::text::{decimal, decimal_string, string_of};
use crate::wrap::strings_view;

verus! {

/// The scroll offset a dialog list is drawn at: the remembered offset, but
/// no further than shows the last row at the bottom.
pub fn dialog_list_scroll(offset: usize, rows: usize, height: u16) -> (s: usize)
    ensures
        s == min_int(offset as int, sat_sub(rows as int, height as int)),
{
    let max_offset = rows.saturating_sub(height as usize);
    if offset < max_offset { offset } else { max_offset }
}

/// The row drawn selected: the selected row, when the highlight shows (the
/// list is focused and has rows) and the row is in view.
pub open spec fn spec_shown_selection(
    selected: Option<usize>,
    offset: int,
    height: int,
    highlight_active: bool,
) -> Option<usize> {
    match selected {
        Some(i) => if highlight_active && offset <= i && i < (if offset + height > usize::MAX {
            usize::MAX as int
        } else {
            offset + height
        }) {
            Some(i)
        } else {
            None
        },
        None => None,
    }
}

pub fn shown_selection(selected: Option<usize>, offset: usize, height: u16, highlight_active: bool) -> (shown: Option<usize>)
    ensures
        shown == spec_shown_selection(selected, offset as int, height as int, highlight_active),
{
    let visible_end = offset.saturating_add(height as usize);
    match selected {
        Some(i) => if highlight_active && i >= offset && i < visible_end {
            Some(i)
        } else {
            None
        },
        None => None,
    }
}

/// Whether row `index` is drawn hover-lifted: the pointer is over it, and it
/// is not the selection the focused list draws highlighted (with a text
/// field focused the highlight is hidden, so the selected row lifts too).
pub open spec fn spec_row_hovered(
    index: usize,
    hovered_row: Option<usize>,
    selected: Option<usize>,
    list_focused: bool,
) -> bool {
    hovered_row == Some(index) && !(list_focused && selected == Some(index))
}

pub fn row_hovered(index: usize, hovered_row: Option<usize>, selected: Option<usize>, list_focused: bool) -> (lifted: bool)
    ensures
        lifted == spec_row_hovered(index, hovered_row, selected, list_focused),
{
    let hovered = match hovered_row {
        Some(h) => h == index,
        None => false,
    };
    let shown = match selected {
        Some(s) => list_focused && s == index,
        None => false,
    };
    hovered && !shown
}

/// A group of feelings in the feelings dialog.
pub struct FeelingGroup {
    pub name: String,
    pub feelings: Vec<String>,
}

/// A row of the feelings dialog's list: a group's header, or one of its
/// feelings.
#[derive(Clone, Copy, Debug, PartialEq, Eq, Structural)]
pub enum FeelingRow {
    Header { group: usize },
    Feeling { group: usize, feeling: usize },
}

/// Whether `name` is among the selected feelings.
pub open spec fn is_selected(selected: Seq<String>, name: Seq<char>) -> bool {
    exists|j: int| 0 <= j < selected.len() && #[trigger] selected[j]@ == name
}

/// Whether every row names a group (and a feeling of it) that exists.
pub open spec fn rows_valid(rows: Seq<FeelingRow>, groups: Seq<FeelingGroup>, expanded: Seq<bool>, counts: Seq<usize>) -> bool {
    forall|i: int|
        0 <= i < rows.len() ==> match #[trigger] rows[i] {
            FeelingRow::Header { group } => group < groups.len() && group < expanded.len() && group < counts.len(),
            FeelingRow::Feeling { group, feeling } => group < groups.len() && feeling < groups[group as int].feelings@.len(),
        }
}

/// The text of one row: a header shows the group's name, how many of its
/// feelings are selected (when any) and whether it is open (`▾`) or
/// collapsed (`▸`); a feeling shows a check box and its name, indented under
/// its header, or, while filtering hides the headers, followed by its
/// group's name.
pub open spec fn spec_feeling_item(
    row: FeelingRow,
    groups: Seq<FeelingGroup>,
    expanded: Seq<bool>,
    counts: Seq<usize>,
    selected: Seq<String>,
    filtering: bool,
) -> Seq<char> {
    match row {
        FeelingRow::Header { group } => {
            let count = counts[group as int];
            groups[group as int].name@ + (if count > 0 { " ("@ + decimal(count as nat) + ")"@ } else { seq![] })
                + (if expanded[group as int] { " ▾"@ } else { " ▸"@ })
        },
        FeelingRow::Feeling { group, feeling } => {
            let name = groups[group as int].feelings@[feeling as int]@;
            let marker = if is_selected(selected, name) { "[x]"@ } else { "[ ]"@ };
            if filtering {
                marker + " "@ + name + "  ("@ + groups[group as int].name@ + ")"@
            } else {
                "   "@ + marker + " "@ + name
            }
        },
    }
}

/// The list's texts: one per row, or a single `(no matches)` for no rows.
pub open spec fn spec_feelings_items(
    rows: Seq<FeelingRow>,
    groups: Seq<FeelingGroup>,
    expanded: Seq<bool>,
    counts: Seq<usize>,
    selected: Seq<String>,
    filtering: bool,
) -> Seq<Seq<char>> {
    if rows.len() == 0 {
        seq!["(no matches)"@]
    } else {
        Seq::new(rows.len(), |i: int| spec_feeling_item(rows[i], groups, expanded, counts, selected, filtering))
    }
}

fn is_selected_name(selected: &Vec<String>, name: &String) -> (found: bool)
    ensures
        found == is_selected(selected@, name@),
{
    let mut j: usize = 0;
    while j < selected.len()
        invariant
            j <= selected@.len(),
            forall|k: int| 0 <= k < j ==> selected@[k]@ != name@,
        decreases selected@.len() - j,
    {
        if selected[j] == *name {
            return true;
        }
        j += 1;
    }
    false
}

fn feeling_item(
    row: FeelingRow,
    groups: &Vec<FeelingGroup>,
    expanded: &Vec<bool>,
    counts: &Vec<usize>,
    selected: &Vec<String>,
    filtering: bool,
) -> (text: String)
    requires
        rows_valid(seq![row], groups@, expanded@, counts@),
    ensures
        text@ == spec_feeling_item(row, groups@, expanded@, counts@, selected@, filtering),
{
    assert(seq![row][0] == row);
    match row {
        FeelingRow::Header { group } => {
            let mut text = groups[group].name.clone();
            let count = counts[group];
            if count > 0 {
                text.append(" (");
                let digits = decimal_string(count as u64);
                text.append(digits.as_str());
                text.append(")");
            }
            if expanded[group] {
                text.append(" ▾");
            } else {
                text.append(" ▸");
            }
            proof {
                reveal_strlit(" (");
                reveal_strlit(")");
                reveal_strlit(" ▾");
                reveal_strlit(" ▸");
                assert(text@ =~= spec_feeling_item(row, groups@, expanded@, counts@, selected@, filtering));
            }
            text
        },
        FeelingRow::Feeling { group, feeling } => {
            let name = &groups[group].feelings[feeling];
            let marker = if is_selected_name(selected, name) { "[x]" } else { "[ ]" };
            let mut text = String::new();
            if filtering {
                text.append(marker);
                text.append(" ");
                text.append(name.as_str());
                text.append("  (");
                text.append(groups[group].name.as_str());
                text.append(")");
            } else {
                text.append("   ");
                text.append(marker);
                text.append(" ");
                text.append(name.as_str());
            }
            proof {
                reveal_strlit("[x]");
                reveal_strlit("[ ]");
                reveal_strlit(" ");
                reveal_strlit("  (");
                reveal_strlit(")");
                reveal_strlit("   ");
                assert(text@ =~= spec_feeling_item(row, groups@, expanded@, counts@, selected@, filtering));
            }
            text
        },
    }
}

/// The texts of the feelings dialog's list rows. `counts[g]` is how many of
/// group `g`'s feelings are selected.
pub fn feelings_dialog_items(
    rows: &Vec<FeelingRow>,
    groups: &Vec<FeelingGroup>,
    expanded: &Vec<bool>,
    counts: &Vec<usize>,
    selected: &Vec<String>,
    filtering: bool,
) -> (items: Vec<String>)
    requires
        rows_valid(rows@, groups@, expanded@, counts@),
    ensures
        strings_view(items@) == spec_feelings_items(rows@, groups@, expanded@, counts@, selected@, filtering),
{
    let mut items: Vec<String> = Vec::new();
    if rows.len() == 0 {
        items.push(string_of("(no matches)"));
        proof {
            reveal_strlit("(no matches)");
            assert(strings_view(items@) =~= spec_feelings_items(rows@, groups@, expanded@, counts@, selected@, filtering));
        }
        return items;
    }
    let mut i: usize = 0;
    while i < rows.len()
        invariant
            i <= rows@.len(),
            rows@.len() > 0,
            rows_valid(rows@, groups@, expanded@, counts@),
            items@.len() == i,
            forall|k: int|
                0 <= k < i ==> (#[trigger] items@[k])@ == spec_feeling_item(rows@[k], groups@, expanded@, counts@, selected@, filtering),
        decreases rows@.len() - i,
    {
        let row = rows[i];
        assert(rows_valid(seq![row], groups@, expanded@, counts@)) by {
            assert(seq![row][0] == rows@[i as int]);
        }
        let text = feeling_item(row, groups, expanded, counts, selected, filtering);
        items.push(text);
        i += 1;
    }
    assert(strings_view(items@) =~= spec_feelings_items(rows@, groups@, expanded@, counts@, selected@, filtering));
    items
}

/// The rows of the location dialog's list, each as its display lines:
/// every label wrapped to the list's width, or, for no labels, one line
/// saying there are no matches (while showing lookup results) or no saved
/// places yet.
pub fn location_dialog_rows(labels: &Vec<String>, list_width: u16, showing_candidates: bool) -> (rows: Vec<Vec<String>>)
    ensures
        labels@.len() == 0 ==> rows@.len() == 1 && strings_view(rows@[0]@) == seq![
            if showing_candidates { "(no matches)"@ } else { "(no saved places yet)"@ },
        ],
        labels@.len() > 0 ==> rows@.len() == labels@.len() && forall|i: int|
            0 <= i < labels@.len() ==> {
                let w = if list_width == 0 { 1 } else { list_width as int };
                let wrapped = crate::wrap::first_lines(
                    crate::wrap::wrapped_lines(labels@[i]@, w, w),
                    crate::surface::LOCATION_LIST_MAX_ITEM_LINES as int,
                );
                strings_view((#[trigger] rows@[i])@) == if wrapped.len() == 0 {
                    seq![Seq::<char>::empty()]
                } else {
                    wrapped
                }
            },
{
    let mut rows: Vec<Vec<String>> = Vec::new();
    if labels.len() == 0 {
        let text = if showing_candidates { string_of("(no matches)") } else { string_of("(no saved places yet)") };
        let mut one: Vec<String> = Vec::new();
        one.push(text);
        rows.push(one);
        proof {
            assert(strings_view(rows@[0]@) =~= seq![text@]);
        }
        return rows;
    }
    let mut i: usize = 0;
    while i < labels.len()
        invariant
            i <= labels@.len(),
            rows@.len() == i,
            forall|k: int|
                0 <= k < i ==> {
                    let w = if list_width == 0 { 1 } else { list_width as int };
                    let wrapped = crate::wrap::first_lines(
                        crate::wrap::wrapped_lines(labels@[k]@, w, w),
                        crate::surface::LOCATION_LIST_MAX_ITEM_LINES as int,
                    );
                    strings_view((#[trigger] rows@[k])@) == if wrapped.len() == 0 {
                        seq![Seq::<char>::empty()]
                    } else {
                        wrapped
                    }
                },
        decreases labels@.len() - i,
    {
        let lines = location_row_lines(labels[i].as_str(), list_width);
        rows.push(lines);
        i += 1;
    }
    rows
}

} // verus!
