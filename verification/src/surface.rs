//! Row layout of entry metadata: value lists packed into rows behind a label,
//! and location labels wrapped under their prefix.
use vstd::prelude::*;
use crate::geometry::Rect;
use crate::text::{display_width, str_width};
use crate::wrap::{lemma_wrapped_lines_len, first_lines, strings_view, wrap_lines, wrap_text, wrapped_lines};

verus! {

/// Columns of the ` | ` separator between two values on a row.
pub const VALUE_SEPARATOR_WIDTH: usize = 3;

/// Columns of the `Selected: ` label in front of a picked-feelings list.
pub const SELECTED_LABEL_WIDTH: u16 = 10;

/// The most lines one wrapped label of the location list may take.
pub const LOCATION_LIST_MAX_ITEM_LINES: usize = 3;

/// The display width of each value.
pub open spec fn value_widths(values: Seq<String>) -> Seq<int> {
    values.map_values(|v: String| display_width(v@) as int)
}

/// The greedy packing of values `i..` into rows: `row` (with display width
/// `row_w`) is being filled and `done` holds the finished rows. A value joins
/// the row, after a ` | ` separator, while the row stays within its limit —
/// `first_limit` for the first row, `limit` after — and otherwise starts the
/// next row; the first value of a row is always placed.
pub open spec fn pack_rows(
    widths: Seq<int>,
    first_limit: int,
    limit: int,
    i: int,
    row_w: int,
    row: Seq<int>,
    done: Seq<Seq<int>>,
) -> Seq<Seq<int>>
    decreases widths.len() - i,
{
    if i < 0 || i >= widths.len() {
        if row.len() == 0 {
            done
        } else {
            done.push(row)
        }
    } else {
        let cap = if done.len() == 0 { first_limit } else { limit };
        let w = widths[i];
        if row.len() == 0 {
            pack_rows(widths, first_limit, limit, i + 1, w, seq![i], done)
        } else if row_w + VALUE_SEPARATOR_WIDTH + w <= cap {
            pack_rows(widths, first_limit, limit, i + 1, row_w + VALUE_SEPARATOR_WIDTH + w, row.push(i), done)
        } else {
            pack_rows(widths, first_limit, limit, i + 1, w, seq![i], done.push(row))
        }
    }
}

/// The rows of value indices a list fills behind a label `prefix_width`
/// columns wide, on rows `width` columns wide.
pub open spec fn spec_metadata_value_rows(prefix_width: int, width: int, values: Seq<String>) -> Seq<Seq<int>> {
    let first = if prefix_width <= width { width - prefix_width } else { 0 };
    pack_rows(value_widths(values), first, width, 0, 0, seq![], seq![])
}

/// The indices of each row, as integers.
pub open spec fn rows_view(rows: Seq<Vec<usize>>) -> Seq<Seq<int>> {
    rows.map_values(|r: Vec<usize>| r@.map_values(|x: usize| x as int))
}

/// Pack `values` into display rows behind a label `prefix_width` columns wide:
/// values are separated by ` | `, a row never starts with a separator, and
/// each row is the list of indices into `values` it shows. Empty when there
/// are no values.
pub fn metadata_value_rows(prefix_width: u16, width: u16, values: &[String]) -> (rows: Vec<Vec<usize>>)
    ensures
        rows_view(rows@) == spec_metadata_value_rows(prefix_width as int, width as int, values@),
{
    let first: usize = if prefix_width <= width {
        (width - prefix_width) as usize
    } else {
        0
    };
    let limit = width as usize;
    let ghost ws = value_widths(values@);
    let mut done: Vec<Vec<usize>> = Vec::new();
    let mut row: Vec<usize> = Vec::new();
    let mut row_w: usize = 0;
    let mut i: usize = 0;
    assert(rows_view(done@) =~= seq![]);
    assert(row@.map_values(|x: usize| x as int) =~= seq![]);
    while i < values.len()
        invariant
            ws == value_widths(values@),
            i <= values.len(),
            first <= limit,
            limit == width,
            first == (if prefix_width <= width { width - prefix_width } else { 0 }),
            pack_rows(ws, first as int, limit as int, 0, 0, seq![], seq![]) == pack_rows(
                ws,
                first as int,
                limit as int,
                i as int,
                row_w as int,
                row@.map_values(|x: usize| x as int),
                rows_view(done@),
            ),
        decreases values.len() - i,
    {
        let cap = if done.len() == 0 {
            first
        } else {
            limit
        };
        let w = str_width(values[i].as_str());
        assert(ws[i as int] == w);
        let ghost old_row = row@.map_values(|x: usize| x as int);
        let ghost old_done = rows_view(done@);
        if row.len() == 0 {
            row = Vec::new();
            row.push(i);
            row_w = w;
            assert(row@.map_values(|x: usize| x as int) =~= seq![i as int]);
        } else if w <= cap && row_w <= cap - w && cap - w - row_w >= VALUE_SEPARATOR_WIDTH {
            row.push(i);
            row_w = row_w + VALUE_SEPARATOR_WIDTH + w;
            assert(row@.map_values(|x: usize| x as int) =~= old_row.push(i as int));
        } else {
            done.push(row);
            assert(rows_view(done@) =~= old_done.push(old_row));
            row = Vec::new();
            row.push(i);
            row_w = w;
            assert(row@.map_values(|x: usize| x as int) =~= seq![i as int]);
        }
        i += 1;
    }
    if row.len() > 0 {
        let ghost old_row = row@.map_values(|x: usize| x as int);
        let ghost old_done = rows_view(done@);
        done.push(row);
        assert(rows_view(done@) =~= old_done.push(old_row));
    }
    done
}

/// Wrap a location label under its `prefix_width`-column `Location: ` prefix:
/// the first line gets what the prefix leaves of `width`, every further line
/// runs flush left over the full width. Every line is kept.
pub fn location_wrapped_lines(prefix_width: u16, width: u16, label: &str) -> (lines: Vec<String>)
    ensures
        strings_view(lines@) == wrapped_lines(
            label@,
            if prefix_width <= width { width - prefix_width } else { 0 },
            width as int,
        ),
{
    let first: usize = if prefix_width <= width {
        (width - prefix_width) as usize
    } else {
        0
    };
    let n = label.unicode_len();
    proof {
        lemma_wrapped_lines_len(label@, first as int, width as int);
    }
    wrap_lines(label, first, width as usize, n)
}

/// The picked feelings as display rows behind the `Selected: ` label. Empty
/// when nothing is picked.
pub fn feelings_selected_rows(selected: &[String], width: u16) -> (rows: Vec<Vec<usize>>)
    ensures
        rows_view(rows@) == spec_metadata_value_rows(SELECTED_LABEL_WIDTH as int, width as int, selected@),
{
    metadata_value_rows(SELECTED_LABEL_WIDTH, width, selected)
}

/// The lines of one location-list label: wrapped to the list's width (at
/// least one column), at most `LOCATION_LIST_MAX_ITEM_LINES` of them, and
/// one empty line when the label has no words.
pub fn location_row_lines(label: &str, list_width: u16) -> (lines: Vec<String>)
    ensures
        ({
            let w = if list_width == 0 { 1 } else { list_width as int };
            let wrapped = first_lines(wrapped_lines(label@, w, w), LOCATION_LIST_MAX_ITEM_LINES as int);
            strings_view(lines@) == if wrapped.len() == 0 { seq![Seq::<char>::empty()] } else { wrapped }
        }),
{
    let width: usize = if list_width == 0 {
        1
    } else {
        list_width as usize
    };
    let lines = wrap_text(label, width, LOCATION_LIST_MAX_ITEM_LINES);
    if lines.len() == 0 {
        let mut one: Vec<String> = Vec::new();
        one.push(String::new());
        assert(strings_view(one@) =~= seq![Seq::<char>::empty()]);
        one
    } else {
        lines
    }
}

/// The number of display lines a location-list label takes at `list_width`.
pub open spec fn location_line_count(label: Seq<char>, list_width: int) -> int {
    let w = if list_width == 0 { 1 } else { list_width };
    let n = first_lines(wrapped_lines(label, w, w), LOCATION_LIST_MAX_ITEM_LINES as int).len() as int;
    if n == 0 { 1 } else { n }
}

/// The label, from index `i` on, whose lines contain display line `relative`
/// of the list, `acc` lines having gone to the labels before `i`.
pub open spec fn label_at_line(labels: Seq<String>, list_width: int, relative: int, i: int, acc: int) -> Option<int>
    decreases labels.len() - i,
{
    if i < 0 || i >= labels.len() {
        None
    } else {
        let next = acc + location_line_count(labels[i]@, list_width);
        if relative < next {
            Some(i)
        } else {
            label_at_line(labels, list_width, relative, i + 1, next)
        }
    }
}

/// The label under row `row` of the location list drawn in `list`, from label
/// `offset` on.
pub open spec fn spec_location_list_row_at(list: Rect, labels: Seq<String>, offset: int, row: int) -> Option<int> {
    if row < list.y || row - list.y >= list.height {
        None
    } else {
        label_at_line(labels, list.width as int, row - list.y, offset, 0)
    }
}

/// Map a click at `row` within the location list to the label drawn there,
/// counting each label's wrapped continuation lines; `offset` is the first
/// visible label. `None` past the last drawn line or outside the list.
pub fn location_list_row_at(list: Rect, labels: &[String], offset: usize, row: u16) -> (index: Option<usize>)
    ensures
        match index {
            Some(i) => spec_location_list_row_at(list, labels@, offset as int, row as int) == Some(i as int),
            None => spec_location_list_row_at(list, labels@, offset as int, row as int) is None,
        },
{
    if row < list.y {
        return None;
    }
    let relative = (row - list.y) as usize;
    if relative >= list.height as usize {
        return None;
    }
    let mut line: usize = 0;
    let mut i = offset;
    while i < labels.len()
        invariant
            offset <= i || labels@.len() <= offset,
            row >= list.y,
            relative == row - list.y,
            relative < list.height,
            line <= relative,
            label_at_line(labels@, list.width as int, relative as int, offset as int, 0) == label_at_line(
                labels@,
                list.width as int,
                relative as int,
                i as int,
                line as int,
            ),
        decreases labels@.len() - i,
    {
        let lines = location_row_lines(labels[i].as_str(), list.width);
        assert(lines@.len() == strings_view(lines@).len());
        line = line + lines.len();
        if relative < line {
            return Some(i);
        }
        i += 1;
    }
    None
}

proof fn lemma_location_line_count_positive(label: Seq<char>, list_width: int)
    ensures
        1 <= location_line_count(label, list_width) <= LOCATION_LIST_MAX_ITEM_LINES,
{
}

/// Clicking any display line of a visible label's block routes to that label:
/// for label `i` at or after `offset`, whose block starts `before` lines into
/// the list, each of its lines that the list shows maps back to `i`.
pub proof fn lemma_clicking_a_wrapped_label_selects_it(
    list: Rect,
    labels: Seq<String>,
    offset: int,
    i: int,
    k: int,
)
    requires
        0 <= offset <= i < labels.len(),
        0 <= k < location_line_count(labels[i]@, list.width as int),
        lines_before(labels, list.width as int, offset, i) + k < list.height,
    ensures
        spec_location_list_row_at(
            list,
            labels,
            offset,
            list.y + lines_before(labels, list.width as int, offset, i) + k,
        ) == Some(i),
{
    lemma_label_at_line_block(labels, list.width as int, offset, i, 0, lines_before(labels, list.width as int, offset, i) + k);
}

/// The display lines the labels `from..to` take.
pub open spec fn lines_before(labels: Seq<String>, list_width: int, from: int, to: int) -> int
    decreases to - from,
{
    if to <= from {
        0
    } else {
        lines_before(labels, list_width, from, to - 1) + location_line_count(labels[to - 1]@, list_width)
    }
}

proof fn lemma_label_at_line_block(labels: Seq<String>, list_width: int, from: int, i: int, acc: int, relative: int)
    requires
        0 <= from <= i < labels.len(),
        acc + lines_before(labels, list_width, from, i) <= relative,
        relative < acc + lines_before(labels, list_width, from, i) + location_line_count(labels[i]@, list_width),
    ensures
        label_at_line(labels, list_width, relative, from, acc) == Some(i),
    decreases i - from,
{
    lemma_location_line_count_positive(labels[from]@, list_width);
    if from < i {
        lemma_lines_before_split(labels, list_width, from, i);
        lemma_label_at_line_block(
            labels,
            list_width,
            from + 1,
            i,
            acc + location_line_count(labels[from]@, list_width),
            relative,
        );
    }
}

proof fn lemma_lines_before_split(labels: Seq<String>, list_width: int, from: int, to: int)
    requires
        from < to,
    ensures
        lines_before(labels, list_width, from, to) == location_line_count(labels[from]@, list_width)
            + lines_before(labels, list_width, from + 1, to),
    decreases to - from,
{
    if from + 1 < to {
        lemma_lines_before_split(labels, list_width, from, to - 1);
        assert(lines_before(labels, list_width, from + 1, to) == lines_before(labels, list_width, from + 1, to - 1)
            + location_line_count(labels[to - 1]@, list_width));
    } else {
        assert(lines_before(labels, list_width, from, from) == 0);
        assert(lines_before(labels, list_width, from + 1, to) == 0);
    }
}

} // verus!
