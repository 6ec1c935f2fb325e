//! The rows of a markdown table as the reader lays them out: in a grid, each
//! cell wrapped to its column and padded as the column is aligned, row by
//! display line; stacked, each cell on a line of its own after its header.
use vstd::prelude::*;
use crate::geometry::sat_sub;
use crate::md_table::{ColumnAlign, spec_cell_padding, cell_padding};
use crate::reflow::{StyleRun, StyledChar, run_view, runs_view, run_chars, spec_soft_wrap, style_runs, wrap_line};
use crate::text::{display_width, str_width};

verus! {

/// One display line of a grid cell: the blank columns before its text, the
/// text's style runs, and the blank columns after it.
#[derive(Debug)]
pub struct CellLine {
    pub left: usize,
    pub runs: Vec<StyleRun>,
    pub right: usize,
}

/// A cell line as a plain value.
pub open spec fn cell_line_view(line: CellLine) -> (int, Seq<(usize, Seq<char>)>, int) {
    (line.left as int, runs_view(line.runs@), line.right as int)
}

/// The display lines of one cell wrapped to `width` columns, each as its
/// style runs.
pub open spec fn cell_wrapped(cell: Seq<StyleRun>, width: int) -> Seq<Seq<(usize, Seq<char>)>> {
    spec_soft_wrap(run_chars(cell), width).map_values(|line: Seq<StyledChar>| style_runs(line))
}

/// The display lines of column `c` of a row: its cell wrapped to the
/// column's width, or one empty line where the row has no such cell.
pub open spec fn column_lines(row: Seq<Vec<StyleRun>>, widths: Seq<usize>, c: int) -> Seq<Seq<(usize, Seq<char>)>> {
    if c < row.len() {
        cell_wrapped(row[c]@, widths[c] as int)
    } else {
        seq![seq![]]
    }
}

/// The most display lines any of the first `k` columns takes.
pub open spec fn tallest(row: Seq<Vec<StyleRun>>, widths: Seq<usize>, k: int) -> int
    decreases k,
{
    if k <= 0 {
        0
    } else {
        let before = tallest(row, widths, k - 1);
        let here = column_lines(row, widths, k - 1).len() as int;
        if here > before { here } else { before }
    }
}

/// How many display lines a row takes: as many as its tallest column (one
/// for a table without columns).
pub open spec fn row_height(row: Seq<Vec<StyleRun>>, widths: Seq<usize>) -> int {
    if widths.len() == 0 {
        1
    } else {
        tallest(row, widths, widths.len() as int)
    }
}

/// The columns a line of style runs takes.
pub open spec fn runs_width(runs: Seq<(usize, Seq<char>)>) -> int
    decreases runs.len(),
{
    if runs.len() == 0 {
        0
    } else {
        runs_width(runs.drop_last()) + display_width(runs.last().1)
    }
}

/// Line `i` of a cell's display lines, empty below its last one.
pub open spec fn line_at(lines: Seq<Seq<(usize, Seq<char>)>>, i: int) -> Seq<(usize, Seq<char>)> {
    if 0 <= i < lines.len() {
        lines[i]
    } else {
        seq![]
    }
}

/// Column `c`'s alignment; a column the delimiter row does not reach is
/// unaligned.
pub open spec fn align_at(aligns: Seq<ColumnAlign>, c: int) -> ColumnAlign {
    if 0 <= c < aligns.len() {
        aligns[c]
    } else {
        ColumnAlign::Unset
    }
}

/// Display line `i` of column `c` in a row: the cell's text on that line,
/// padded to the column's width as the column is aligned.
pub open spec fn spec_cell_line(
    row: Seq<Vec<StyleRun>>,
    widths: Seq<usize>,
    aligns: Seq<ColumnAlign>,
    c: int,
    i: int,
) -> (int, Seq<(usize, Seq<char>)>, int) {
    let runs = line_at(column_lines(row, widths, c), i);
    let pads = spec_cell_padding(widths[c] as int, runs_width(runs), align_at(aligns, c));
    (pads.0, runs, pads.1)
}

/// A copy of a line of style runs.
pub(crate) fn copy_runs(runs: &Vec<StyleRun>) -> (copy: Vec<StyleRun>)
    ensures
        runs_view(copy@) == runs_view(runs@),
{
    let mut copy: Vec<StyleRun> = Vec::new();
    let mut k: usize = 0;
    while k < runs.len()
        invariant
            k <= runs@.len(),
            runs_view(copy@) == runs_view(runs@.take(k as int)),
        decreases runs@.len() - k,
    {
        let run = StyleRun { style: runs[k].style, content: runs[k].content.clone() };
        copy.push(run);
        proof {
            assert(runs_view(runs@.take(k + 1)) =~= runs_view(runs@.take(k as int)).push(run_view(runs@[k as int])));
            assert(runs_view(copy@) =~= runs_view(copy@.drop_last()).push(run_view(run)));
        }
        k += 1;
    }
    assert(runs@.take(runs@.len() as int) =~= runs@);
    copy
}

/// The columns a line of style runs takes, capped at `usize::MAX`.
pub(crate) fn width_of_runs(runs: &Vec<StyleRun>) -> (width: usize)
    ensures
        width as int == if runs_width(runs_view(runs@)) > usize::MAX {
            usize::MAX as int
        } else {
            runs_width(runs_view(runs@))
        },
{
    let mut width: usize = 0;
    let mut k: usize = 0;
    while k < runs.len()
        invariant
            k <= runs@.len(),
            width as int == if runs_width(runs_view(runs@.take(k as int))) > usize::MAX {
                usize::MAX as int
            } else {
                runs_width(runs_view(runs@.take(k as int)))
            },
        decreases runs@.len() - k,
    {
        let w = str_width(runs[k].content.as_str());
        proof {
            let next = runs_view(runs@.take(k + 1));
            assert(next.drop_last() =~= runs_view(runs@.take(k as int)));
            assert(next.last() == run_view(runs@[k as int]));
        }
        width = width.saturating_add(w);
        k += 1;
    }
    assert(runs@.take(runs@.len() as int) =~= runs@);
    width
}

/// Column `c`'s alignment.
fn align_of(aligns: &Vec<ColumnAlign>, c: usize) -> (align: ColumnAlign)
    ensures
        align == align_at(aligns@, c as int),
{
    if c < aligns.len() {
        aligns[c]
    } else {
        ColumnAlign::Unset
    }
}

/// The display lines of one row of a grid table: every cell wrapped to its
/// column's width (a row short of cells gets empty ones), as many lines as
/// its tallest cell, each cell line padded to its column as the column is
/// aligned.
pub fn grid_row_lines(row: &Vec<Vec<StyleRun>>, widths: &Vec<usize>, aligns: &Vec<ColumnAlign>) -> (lines: Vec<Vec<CellLine>>)
    ensures
        lines@.len() == row_height(row@, widths@),
        forall|i: int| 0 <= i < lines@.len() ==> (#[trigger] lines@[i])@.len() == widths@.len(),
        forall|i: int, c: int|
            0 <= i < lines@.len() && 0 <= c < widths@.len() ==> cell_line_view(#[trigger] lines@[i]@[c])
                == spec_cell_line(row@, widths@, aligns@, c, i),
{
    let mut wrapped: Vec<Vec<Vec<StyleRun>>> = Vec::new();
    let mut height: usize = 0;
    let mut c: usize = 0;
    while c < widths.len()
        invariant
            c <= widths@.len(),
            wrapped@.len() == c,
            height as int == tallest(row@, widths@, c as int),
            forall|k: int|
                0 <= k < c ==> (#[trigger] wrapped@[k])@.len() == column_lines(row@, widths@, k).len(),
            forall|k: int, j: int|
                0 <= k < c && 0 <= j < wrapped@[k]@.len() ==> runs_view(#[trigger] wrapped@[k]@[j]@)
                    == column_lines(row@, widths@, k)[j],
        decreases widths@.len() - c,
    {
        let column = if c < row.len() {
            let w = wrap_line(&row[c], widths[c]);
            proof {
                let target = cell_wrapped(row@[c as int]@, widths@[c as int] as int);
                assert(target.len() == w@.len());
                assert forall|j: int| 0 <= j < w@.len() implies runs_view(#[trigger] w@[j]@) == target[j] by {}
            }
            w
        } else {
            let mut one: Vec<Vec<StyleRun>> = Vec::new();
            one.push(Vec::new());
            proof {
                assert(runs_view(one@[0]@) =~= seq![]);
            }
            one
        };
        if column.len() > height {
            height = column.len();
        }
        wrapped.push(column);
        c += 1;
    }
    if widths.len() == 0 {
        height = 1;
    }
    let mut lines: Vec<Vec<CellLine>> = Vec::new();
    let mut i: usize = 0;
    while i < height
        invariant
            i <= height,
            height as int == row_height(row@, widths@),
            wrapped@.len() == widths@.len(),
            forall|k: int|
                0 <= k < widths@.len() ==> (#[trigger] wrapped@[k])@.len() == column_lines(row@, widths@, k).len(),
            forall|k: int, j: int|
                0 <= k < widths@.len() && 0 <= j < wrapped@[k]@.len() ==> runs_view(#[trigger] wrapped@[k]@[j]@)
                    == column_lines(row@, widths@, k)[j],
            lines@.len() == i,
            forall|r: int| 0 <= r < i ==> (#[trigger] lines@[r])@.len() == widths@.len(),
            forall|r: int, k: int|
                0 <= r < i && 0 <= k < widths@.len() ==> cell_line_view(#[trigger] lines@[r]@[k])
                    == spec_cell_line(row@, widths@, aligns@, k, r),
        decreases height - i,
    {
        let mut cells: Vec<CellLine> = Vec::new();
        let mut k: usize = 0;
        while k < widths.len()
            invariant
                k <= widths@.len(),
                i < height,
                wrapped@.len() == widths@.len(),
                forall|q: int|
                    0 <= q < widths@.len() ==> (#[trigger] wrapped@[q])@.len() == column_lines(row@, widths@, q).len(),
                forall|q: int, j: int|
                    0 <= q < widths@.len() && 0 <= j < wrapped@[q]@.len() ==> runs_view(#[trigger] wrapped@[q]@[j]@)
                        == column_lines(row@, widths@, q)[j],
                cells@.len() == k,
                forall|q: int|
                    0 <= q < k ==> cell_line_view(#[trigger] cells@[q]) == spec_cell_line(row@, widths@, aligns@, q, i as int),
            decreases widths@.len() - k,
        {
            let runs = if i < wrapped[k].len() {
                copy_runs(&wrapped[k][i])
            } else {
                Vec::new()
            };
            proof {
                let target = line_at(column_lines(row@, widths@, k as int), i as int);
                if i < wrapped@[k as int]@.len() {
                    assert(runs_view(runs@) == target);
                } else {
                    assert(runs_view(runs@) =~= target);
                }
            }
            let used = width_of_runs(&runs);
            let pads = cell_padding(widths[k], used, align_of(aligns, k));
            proof {
                let total = runs_width(runs_view(runs@));
                assert(sat_sub(widths@[k as int] as int, used as int) == sat_sub(widths@[k as int] as int, total));
            }
            cells.push(CellLine { left: pads.0, runs, right: pads.1 });
            k += 1;
        }
        lines.push(cells);
        i += 1;
    }
    lines
}


/// Grid cells line up: a cell line whose text fits its column is padded to
/// exactly the column's width, whatever the column's alignment.
pub proof fn lemma_cell_lines_fill_their_column(
    row: Seq<Vec<StyleRun>>,
    widths: Seq<usize>,
    aligns: Seq<ColumnAlign>,
    c: int,
    i: int,
)
    requires
        0 <= c < widths.len(),
        runs_width(line_at(column_lines(row, widths, c), i)) <= widths[c],
    ensures
        ({
            let (left, runs, right) = spec_cell_line(row, widths, aligns, c, i);
            &&& 0 <= left
            &&& 0 <= right
            &&& left + runs_width(runs) + right == widths[c]
        }),
{
    lemma_runs_width_nonnegative(line_at(column_lines(row, widths, c), i));
}

proof fn lemma_runs_width_nonnegative(runs: Seq<(usize, Seq<char>)>)
    ensures
        runs_width(runs) >= 0,
    decreases runs.len(),
{
    if runs.len() > 0 {
        lemma_runs_width_nonnegative(runs.drop_last());
    }
}

/// A line of a stacked table: a blank line between rows, or a cell's text.
#[derive(Debug)]
pub enum StackedLine {
    Blank,
    Text(Vec<StyleRun>),
}

/// A stacked-table line as a plain value (`None` for a blank line).
pub open spec fn stacked_line_view(line: StackedLine) -> Option<Seq<(usize, Seq<char>)>> {
    match line {
        StackedLine::Blank => None,
        StackedLine::Text(runs) => Some(runs_view(runs@)),
    }
}

pub open spec fn stacked_lines_view(lines: Seq<StackedLine>) -> Seq<Option<Seq<(usize, Seq<char>)>>> {
    lines.map_values(|line: StackedLine| stacked_line_view(line))
}

/// The line a stacked table gives cell `c` of a body row: the column's header
/// and a `: ` separator in the `muted` style (when the header has text), then
/// the cell's text.
pub open spec fn stacked_pair(
    headers: Seq<Vec<StyleRun>>,
    value: Seq<StyleRun>,
    c: int,
    muted: usize,
) -> Seq<(usize, Seq<char>)> {
    let header = if 0 <= c < headers.len() { runs_view(headers[c]@) } else { seq![] };
    let lead = if header.len() > 0 { header.push((muted, ": "@)) } else { header };
    lead + runs_view(value)
}

/// The lines of body row `r` of a stacked table, one per cell.
pub open spec fn stacked_row(rows: Seq<Vec<Vec<StyleRun>>>, r: int, muted: usize) -> Seq<Option<Seq<(usize, Seq<char>)>>> {
    Seq::new(
        rows[r]@.len(),
        |c: int| Some(stacked_pair(rows[0]@, rows[r]@[c]@, c, muted)),
    )
}

/// The lines of the first `n` rows of a stacked table: the header row gives
/// none of its own, and a blank line parts each body row from the one before.
pub open spec fn stacked_upto(rows: Seq<Vec<Vec<StyleRun>>>, n: int, muted: usize) -> Seq<Option<Seq<(usize, Seq<char>)>>>
    decreases n,
{
    if n <= 1 {
        seq![]
    } else {
        let gap: Seq<Option<Seq<(usize, Seq<char>)>>> = if n > 2 { seq![None] } else { seq![] };
        stacked_upto(rows, n - 1, muted) + gap + stacked_row(rows, n - 1, muted)
    }
}

/// A table too narrow for a grid, stacked: after the header row, each body
/// row's cells one per line as `header: value`, body rows parted by a blank
/// line.
pub fn stacked_table_lines(rows: &Vec<Vec<Vec<StyleRun>>>, muted: usize) -> (lines: Vec<StackedLine>)
    ensures
        stacked_lines_view(lines@) == stacked_upto(rows@, rows@.len() as int, muted),
{
    let mut lines: Vec<StackedLine> = Vec::new();
    if rows.len() == 0 {
        assert(stacked_lines_view(lines@) =~= seq![]);
        return lines;
    }
    let mut r: usize = 1;
    assert(stacked_lines_view(lines@) =~= stacked_upto(rows@, 1, muted));
    while r < rows.len()
        invariant
            1 <= r <= rows@.len(),
            stacked_lines_view(lines@) == stacked_upto(rows@, r as int, muted),
        decreases rows@.len() - r,
    {
        let ghost before = stacked_lines_view(lines@);
        if r > 1 {
            lines.push(StackedLine::Blank);
        }
        let ghost with_gap = stacked_lines_view(lines@);
        proof {
            let gap: Seq<Option<Seq<(usize, Seq<char>)>>> = if r + 1 > 2 { seq![None] } else { seq![] };
            assert(with_gap =~= before + gap);
        }
        let row = &rows[r];
        let headers = &rows[0];
        let mut c: usize = 0;
        while c < row.len()
            invariant
                1 <= r < rows@.len(),
                row == rows@[r as int],
                headers == rows@[0],
                c <= row@.len(),
                stacked_lines_view(lines@) == with_gap + stacked_row(rows@, r as int, muted).take(c as int),
            decreases row@.len() - c,
        {
            let mut runs: Vec<StyleRun> = Vec::new();
            if c < headers.len() && headers[c].len() > 0 {
                runs = copy_runs(&headers[c]);
                let sep = StyleRun { style: muted, content: String::from_str(": ") };
                runs.push(sep);
                proof {
                    reveal_strlit(": ");
                    assert(runs_view(runs@) =~= runs_view(headers@[c as int]@).push((muted, ": "@)));
                }
            } else {
                proof {
                    if c < headers@.len() {
                        assert(runs_view(headers@[c as int]@) =~= seq![]);
                    }
                    assert(runs_view(runs@) =~= seq![]);
                }
            }
            let mut value = copy_runs(&row[c]);
            let ghost lead = runs_view(runs@);
            runs.append(&mut value);
            proof {
                assert(runs_view(runs@) =~= lead + runs_view(row@[c as int]@));
                assert(runs_view(runs@) == stacked_pair(rows@[0]@, rows@[r as int]@[c as int]@, c as int, muted));
            }
            let ghost prior = stacked_lines_view(lines@);
            let line = StackedLine::Text(runs);
            lines.push(line);
            proof {
                assert(stacked_lines_view(lines@) =~= prior.push(stacked_line_view(line)));
                assert(stacked_row(rows@, r as int, muted).take(c + 1) =~= stacked_row(rows@, r as int, muted).take(c as int).push(stacked_line_view(line)));
            }
            c += 1;
        }
        proof {
            assert(stacked_row(rows@, r as int, muted).take(row@.len() as int) =~= stacked_row(rows@, r as int, muted));
        }
        r += 1;
    }
    lines
}

} // verus!
