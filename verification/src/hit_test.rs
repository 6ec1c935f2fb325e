//! Mapping mouse positions in the journal and entry columns to list items.
use vstd::prelude::*;
use crate::geometry::{Rect, point_in_rect, sat_add_u16, sat_sub};

verus! {

/// One laid-out row of a pixel-row list: its height in terminal rows and the
/// item it shows (`None` for dividers and spacers).
#[derive(Clone, Copy, Debug, PartialEq, Eq)]
pub struct RowMeta {
    pub height: u16,
    pub item_index: Option<usize>,
}

/// A panel's geometry: the content rect inside its frame and padding.
#[derive(Clone, Copy, Debug, PartialEq, Eq)]
pub struct PanelGeometry {
    pub content: Rect,
}

/// The entry list's geometry; the list rows fill the panel content.
#[derive(Clone, Copy, Debug, PartialEq, Eq)]
pub struct EntryListGeometry {
    pub panel: PanelGeometry,
}

/// The item of the row covering list pixel row `target`, scanning from row `i`
/// whose top sits at `row_y`; row ends accumulate saturating at `usize::MAX`.
pub open spec fn row_item_from(rows: Seq<RowMeta>, i: int, row_y: int, target: int) -> Option<
    usize,
>
    decreases rows.len() - i,
{
    if i < 0 || i >= rows.len() {
        None
    } else {
        let next = if row_y + rows[i].height > usize::MAX {
            usize::MAX as int
        } else {
            row_y + rows[i].height
        };
        if target < next {
            rows[i].item_index
        } else {
            row_item_from(rows, i + 1, next, target)
        }
    }
}

/// The item under list pixel row `target` (rows stacked from the top).
pub open spec fn row_item_at(rows: Seq<RowMeta>, target: int) -> Option<usize> {
    row_item_from(rows, 0, 0, target)
}

/// Scan `rows` for the one covering list pixel row `target_y`.
fn item_at_list_row(rows: &[RowMeta], target_y: usize) -> (item: Option<usize>)
    ensures
        item == row_item_at(rows@, target_y as int),
{
    let mut row_y = 0usize;
    let mut i = 0usize;
    while i < rows.len()
        invariant
            0 <= i <= rows@.len(),
            row_item_from(rows@, i as int, row_y as int, target_y as int) == row_item_at(
                rows@,
                target_y as int,
            ),
        decreases rows@.len() - i,
    {
        let row = rows[i];
        let next_y = row_y.saturating_add(row.height as usize);
        if target_y < next_y {
            return row.item_index;
        }
        row_y = next_y;
        i += 1;
    }
    None
}

/// The rect the journal boxes are drawn into: the panel content shifted down
/// by the one leading blank row.
pub fn journal_list_rect(content: Rect) -> (list: Rect)
    ensures
        list == (Rect {
            y: sat_add_u16(content.y as int, 1) as u16,
            height: sat_sub(content.height as int, 1) as u16,
            ..content
        }),
{
    Rect { y: content.y.saturating_add(1), height: content.height.saturating_sub(1), ..content }
}

/// Maps a point in the journal panel's content to the journal index under it,
/// or `None` for the leading offset, the "Archived" divider row, or empty space.
/// `scroll` is a pixel-row offset into the list.
pub fn journal_index_at(content: Rect, x: u16, y: u16, scroll: usize, meta: &[RowMeta]) -> (index:
    Option<usize>)
    requires
        journal_list_rect_spec(content).spec_contains(x as int, y as int) ==> scroll + (y
            - journal_list_rect_spec(content).y) <= usize::MAX,
    ensures
        index == (if journal_list_rect_spec(content).spec_contains(x as int, y as int) {
            row_item_at(meta@, scroll + (y - journal_list_rect_spec(content).y))
        } else {
            None
        }),
{
    let list = journal_list_rect(content);
    if !point_in_rect(list, x, y) {
        return None;
    }
    let target_y = scroll + (y - list.y) as usize;
    item_at_list_row(meta, target_y)
}

/// The journal list rect as a spec value.
pub open spec fn journal_list_rect_spec(content: Rect) -> Rect {
    Rect {
        y: sat_add_u16(content.y as int, 1) as u16,
        height: sat_sub(content.height as int, 1) as u16,
        ..content
    }
}

/// Maps a point in the entry list to the entry index under it, or `None` for
/// month dividers, spacers and empty space. `scroll` is a pixel-row offset.
pub fn entry_index_at(
    geometry: EntryListGeometry,
    x: u16,
    y: u16,
    scroll: usize,
    rows: &[RowMeta],
) -> (index: Option<usize>)
    requires
        geometry.panel.content.spec_contains(x as int, y as int) ==> scroll + (y
            - geometry.panel.content.y) <= usize::MAX,
    ensures
        index == (if geometry.panel.content.spec_contains(x as int, y as int) {
            row_item_at(rows@, scroll + (y - geometry.panel.content.y))
        } else {
            None
        }),
{
    let content = geometry.panel.content;
    if !point_in_rect(content, x, y) {
        return None;
    }
    let target_y = scroll + (y - content.y) as usize;
    item_at_list_row(rows, target_y)
}

} // verus!
