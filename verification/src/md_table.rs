//! Sizing a markdown table for the reader: whether it is drawn as a grid or
//! stacked as `header: value` lines, how wide each grid column is once
//! fitted to the panel, and how a cell's text is padded in its column.
use vstd::prelude::*;
use crate::geometry::sat_sub;
use crate::hints::seq_sum;

verus! {

/// A column's alignment, as the table's delimiter row sets it.
#[derive(Clone, Copy, Debug, PartialEq, Eq, Structural)]
pub enum ColumnAlign {
    Unset,
    Left,
    Center,
    Right,
}

/// The blank cells left and right of `used` columns of text in a column
/// `width` wide: right-aligned text gets all of it on the left, centred text
/// splits it (the odd cell on the right), anything else gets it on the right.
pub open spec fn spec_cell_padding(width: int, used: int, align: ColumnAlign) -> (int, int) {
    let padding = sat_sub(width, used);
    match align {
        ColumnAlign::Right => (padding, 0),
        ColumnAlign::Center => (padding / 2, padding - padding / 2),
        _ => (0, padding),
    }
}

pub fn cell_padding(width: usize, used: usize, align: ColumnAlign) -> (pads: (usize, usize))
    ensures
        pads.0 == spec_cell_padding(width as int, used as int, align).0,
        pads.1 == spec_cell_padding(width as int, used as int, align).1,
{
    let padding = width.saturating_sub(used);
    match align {
        ColumnAlign::Right => (padding, 0),
        ColumnAlign::Center => (padding / 2, padding - padding / 2),
        _ => (0, padding),
    }
}

/// How many columns the table has: the most cells any row has.
pub open spec fn column_count(rows: Seq<Seq<usize>>) -> int
    decreases rows.len(),
{
    if rows.len() == 0 {
        0
    } else {
        let before = column_count(rows.drop_last());
        if rows.last().len() > before { rows.last().len() as int } else { before }
    }
}

/// The width column `c` asks for: its widest cell, at least one.
pub open spec fn natural_width(rows: Seq<Seq<usize>>, c: int) -> int
    decreases rows.len(),
{
    if rows.len() == 0 {
        1
    } else {
        let before = natural_width(rows.drop_last(), c);
        if c < rows.last().len() && rows.last()[c] > before { rows.last()[c] as int } else { before }
    }
}

/// The widths every column asks for.
pub open spec fn natural_widths(rows: Seq<Seq<usize>>) -> Seq<int> {
    Seq::new(column_count(rows) as nat, |c: int| natural_width(rows, c))
}

/// The index of the widest column, the last one among equals.
pub open spec fn widest_upto(ws: Seq<int>, n: int) -> int
    decreases n,
{
    if n <= 1 {
        0
    } else {
        let before = widest_upto(ws, n - 1);
        if ws[n - 1] >= ws[before] { n - 1 } else { before }
    }
}

pub open spec fn widest(ws: Seq<int>) -> int {
    widest_upto(ws, ws.len() as int)
}

/// Take a column from the widest column, one at a time, while the widths
/// add up to more than `budget` and the widest is wider than one.
pub open spec fn shrink_steps(ws: Seq<int>, budget: int, fuel: nat) -> Seq<int>
    decreases fuel,
{
    if fuel == 0 || seq_sum(ws) <= budget {
        ws
    } else {
        let c = widest(ws);
        if ws[c] <= 1 {
            ws
        } else {
            shrink_steps(ws.update(c, ws[c] - 1), budget, (fuel - 1) as nat)
        }
    }
}

/// The widths fitted into `budget` columns.
pub open spec fn fitted_widths(ws: Seq<int>, budget: int) -> Seq<int> {
    shrink_steps(ws, budget, seq_sum(ws) as nat)
}

/// How a table is drawn.
#[derive(Debug)]
pub enum TableLayout {
    /// Nothing to draw: no rows, or no cells.
    Empty,
    /// Too narrow for a grid: each row as `header: value` lines.
    Stacked,
    /// A grid with these column widths.
    Grid(Vec<usize>),
}

/// `a + b`, capped at `usize::MAX`.
pub open spec fn sat_add_usize(a: int, b: int) -> int {
    if a + b > usize::MAX { usize::MAX as int } else { a + b }
}

/// The grid's fixed columns: three per column (a border and a space each
/// side) and the closing border, capped at `usize::MAX`.
pub open spec fn grid_overhead(columns: int) -> int {
    sat_add_usize(if columns * 3 > usize::MAX { usize::MAX as int } else { columns * 3 }, 1)
}

/// Whether a table with `columns` columns fits a grid in `available`
/// columns: it needs more than its borders and one cell per column.
pub open spec fn grid_fits(available: int, columns: int) -> bool {
    available > sat_add_usize(grid_overhead(columns), columns)
}

/// The views of a row of widths.
pub open spec fn widths_view(ws: Seq<usize>) -> Seq<int> {
    ws.map_values(|w: usize| w as int)
}

/// All entries are at least one.
pub open spec fn all_positive(ws: Seq<int>) -> bool {
    forall|i: int| 0 <= i < ws.len() ==> ws[i] >= 1
}

proof fn lemma_seq_sum_update(ws: Seq<int>, c: int, v: int)
    requires
        0 <= c < ws.len(),
    ensures
        seq_sum(ws.update(c, v)) == seq_sum(ws) - ws[c] + v,
    decreases ws.len(),
{
    if c < ws.len() - 1 {
        assert(ws.update(c, v).drop_last() =~= ws.drop_last().update(c, v));
        lemma_seq_sum_update(ws.drop_last(), c, v);
    } else {
        assert(ws.update(c, v).drop_last() =~= ws.drop_last());
    }
}

proof fn lemma_seq_sum_nonneg(ws: Seq<int>)
    requires
        forall|i: int| 0 <= i < ws.len() ==> ws[i] >= 0,
    ensures
        seq_sum(ws) >= 0,
    decreases ws.len(),
{
    if ws.len() > 0 {
        assert(ws[ws.len() - 1] >= 0);
        lemma_seq_sum_nonneg(ws.drop_last());
    }
}

proof fn lemma_seq_sum_prefix(ws: Seq<int>, k: int)
    requires
        0 <= k <= ws.len(),
        forall|i: int| 0 <= i < ws.len() ==> ws[i] >= 0,
    ensures
        0 <= seq_sum(ws.take(k)) <= seq_sum(ws),
        seq_sum(ws.take(k)) + (if k < ws.len() { ws[k] } else { 0 }) <= seq_sum(ws),
    decreases ws.len() - k,
{
    lemma_seq_sum_nonneg(ws.take(k));
    if k < ws.len() {
        lemma_seq_sum_prefix(ws, k + 1);
        assert(ws.take(k + 1).drop_last() =~= ws.take(k));
    } else {
        assert(ws.take(k) =~= ws);
    }
}

/// The sum of `ws`.
fn sum_widths(ws: &Vec<usize>) -> (total: usize)
    requires
        seq_sum(widths_view(ws@)) <= usize::MAX,
    ensures
        total == seq_sum(widths_view(ws@)),
{
    let ghost v = widths_view(ws@);
    let mut total: usize = 0;
    let mut k: usize = 0;
    while k < ws.len()
        invariant
            k <= ws@.len(),
            v == widths_view(ws@),
            seq_sum(v) <= usize::MAX,
            total == seq_sum(v.take(k as int)),
        decreases ws@.len() - k,
    {
        proof {
            lemma_seq_sum_prefix(v, k as int);
            assert(v.take(k + 1).drop_last() =~= v.take(k as int));
        }
        total = total + ws[k];
        k += 1;
    }
    assert(v.take(ws@.len() as int) =~= v);
    total
}

/// The index of the widest of `ws`, the last among equals.
fn widest_index(ws: &Vec<usize>) -> (c: usize)
    requires
        ws@.len() > 0,
    ensures
        c == widest(widths_view(ws@)),
        c < ws@.len(),
{
    let ghost v = widths_view(ws@);
    let mut best: usize = 0;
    let mut k: usize = 1;
    while k < ws.len()
        invariant
            1 <= k <= ws@.len(),
            v == widths_view(ws@),
            best == widest_upto(v, k as int),
            best < k,
        decreases ws@.len() - k,
    {
        if ws[k] >= ws[best] {
            best = k;
        }
        k += 1;
    }
    best
}

/// How to draw a table whose cells are `cell_widths` columns wide (row by
/// row), `prefix_width` columns in from the left of a panel `width` wide:
/// nothing without cells; stacked when the grid's borders and one column per
/// cell do not fit; otherwise a grid whose columns start at their widest
/// cell and give up a column at a time, widest first, until the table fits
/// or every column is one wide.
pub fn table_layout(cell_widths: &Vec<Vec<usize>>, width: usize, prefix_width: usize) -> (layout: TableLayout)
    requires
        grid_fits(sat_sub(width as int, prefix_width as int), column_count(cell_widths@.map_values(|r: Vec<usize>| r@)))
            ==> seq_sum(natural_widths(cell_widths@.map_values(|r: Vec<usize>| r@))) <= usize::MAX,
    ensures
        ({
            let rows = cell_widths@.map_values(|r: Vec<usize>| r@);
            let columns = column_count(rows);
            let available = sat_sub(width as int, prefix_width as int);
            match layout {
                TableLayout::Empty => rows.len() == 0 || columns == 0,
                TableLayout::Stacked => rows.len() > 0 && columns > 0 && !grid_fits(available, columns),
                TableLayout::Grid(ws) => rows.len() > 0 && columns > 0 && grid_fits(available, columns)
                    && widths_view(ws@) == fitted_widths(natural_widths(rows), available - grid_overhead(columns)),
            }
        }),
{
    let ghost rows = cell_widths@.map_values(|r: Vec<usize>| r@);
    if cell_widths.len() == 0 {
        return TableLayout::Empty;
    }
    let mut columns: usize = 0;
    let mut r: usize = 0;
    while r < cell_widths.len()
        invariant
            r <= cell_widths@.len(),
            rows == cell_widths@.map_values(|r: Vec<usize>| r@),
            columns == column_count(rows.take(r as int)),
        decreases cell_widths@.len() - r,
    {
        assert(rows.take(r + 1).drop_last() =~= rows.take(r as int));
        assert(rows.take(r + 1).last() == cell_widths@[r as int]@);
        if cell_widths[r].len() > columns {
            columns = cell_widths[r].len();
        }
        r += 1;
    }
    assert(rows.take(cell_widths@.len() as int) =~= rows);
    if columns == 0 {
        return TableLayout::Empty;
    }
    let available = width.saturating_sub(prefix_width);
    let tripled = if columns > usize::MAX / 3 { usize::MAX } else { columns * 3 };
    let overhead = tripled.saturating_add(1);
    if available <= overhead.saturating_add(columns) {
        return TableLayout::Stacked;
    }
    let content = available - overhead;
    let mut widths: Vec<usize> = Vec::new();
    let mut c: usize = 0;
    while c < columns
        invariant
            c <= columns,
            widths@.len() == c,
            forall|i: int| 0 <= i < c ==> widths@[i] == 1,
        decreases columns - c,
    {
        widths.push(1);
        c += 1;
    }
    assert(widths_view(widths@) =~= Seq::new(columns as nat, |i: int| natural_width(rows.take(0), i)));
    r = 0;
    while r < cell_widths.len()
        invariant
            r <= cell_widths@.len(),
            rows == cell_widths@.map_values(|r: Vec<usize>| r@),
            columns == column_count(rows),
            widths@.len() == columns,
            widths_view(widths@) == Seq::new(columns as nat, |i: int| natural_width(rows.take(r as int), i)),
        decreases cell_widths@.len() - r,
    {
        let row = &cell_widths[r];
        assert(rows.take(r + 1).drop_last() =~= rows.take(r as int));
        assert(rows.take(r + 1).last() == row@);
        proof {
            lemma_column_count_bounds(rows, r as int);
        }
        let mut k: usize = 0;
        while k < row.len()
            invariant
                k <= row@.len() <= columns,
                widths@.len() == columns,
                forall|i: int|
                    0 <= i < columns ==> #[trigger] widths_view(widths@)[i] == if i < k {
                        natural_width(rows.take(r + 1), i)
                    } else {
                        natural_width(rows.take(r as int), i)
                    },
                rows.take(r + 1).drop_last() == rows.take(r as int),
                rows.take(r + 1).last() == row@,
                r < rows.len(),
            decreases row@.len() - k,
        {
            let ghost old_view = widths_view(widths@);
            if row[k] > widths[k] {
                widths.set(k, row[k]);
            }
            assert forall|i: int|
                0 <= i < columns implies #[trigger] widths_view(widths@)[i] == if i < k + 1 {
                natural_width(rows.take(r + 1), i)
            } else {
                natural_width(rows.take(r as int), i)
            } by {
                assert(old_view[i] == if i < k {
                    natural_width(rows.take(r + 1), i)
                } else {
                    natural_width(rows.take(r as int), i)
                });
                if i != k {
                    assert(widths_view(widths@)[i] == old_view[i]);
                } else {
                    let t = rows.take(r + 1);
                    assert(t.len() > 0);
                    assert(natural_width(t, i) == if i < t.last().len() && t.last()[i] > natural_width(
                        t.drop_last(),
                        i,
                    ) {
                        t.last()[i] as int
                    } else {
                        natural_width(t.drop_last(), i)
                    });
                }
            }
            k += 1;
        }
        r += 1;
        assert(widths_view(widths@) =~= Seq::new(columns as nat, |i: int| natural_width(rows.take(r as int), i)));
    }
    assert(rows.take(cell_widths@.len() as int) =~= rows);
    assert(widths_view(widths@) =~= natural_widths(rows));
    proof {
        lemma_natural_widths_positive(rows);
        lemma_seq_sum_nonneg(natural_widths(rows));
    }
    let ghost start = natural_widths(rows);
    let ghost mut fuel: nat = seq_sum(start) as nat;
    loop
        invariant_except_break
            widths@.len() == columns,
            columns >= 1,
            all_positive(widths_view(widths@)),
            seq_sum(widths_view(widths@)) <= usize::MAX,
            fuel == seq_sum(widths_view(widths@)),
            fitted_widths(start, content as int) == shrink_steps(widths_view(widths@), content as int, fuel),
        ensures
            widths_view(widths@) == fitted_widths(start, content as int),
        decreases fuel,
    {
        let total = sum_widths(&widths);
        if total <= content {
            break;
        }
        let c = widest_index(&widths);
        if widths[c] <= 1 {
            break;
        }
        let ghost before = widths_view(widths@);
        widths.set(c, widths[c] - 1);
        proof {
            assert(widths_view(widths@) =~= before.update(c as int, before[c as int] - 1));
            lemma_seq_sum_update(before, c as int, before[c as int] - 1);
            fuel = (fuel - 1) as nat;
        }
    }
    TableLayout::Grid(widths)
}

/// A row has at most as many cells as the table has columns.
proof fn lemma_column_count_bounds(rows: Seq<Seq<usize>>, r: int)
    requires
        0 <= r < rows.len(),
    ensures
        rows[r].len() <= column_count(rows),
    decreases rows.len(),
{
    if r < rows.len() - 1 {
        assert(rows.drop_last()[r] == rows[r]);
        lemma_column_count_bounds(rows.drop_last(), r);
    }
}

proof fn lemma_natural_width_positive(rows: Seq<Seq<usize>>, c: int)
    ensures
        natural_width(rows, c) >= 1,
    decreases rows.len(),
{
    if rows.len() > 0 {
        lemma_natural_width_positive(rows.drop_last(), c);
    }
}

proof fn lemma_natural_widths_positive(rows: Seq<Seq<usize>>)
    ensures
        all_positive(natural_widths(rows)),
{
    assert forall|i: int| 0 <= i < natural_widths(rows).len() implies natural_widths(rows)[i] >= 1 by {
        lemma_natural_width_positive(rows, i);
    }
}


proof fn lemma_widest_is_widest(ws: Seq<int>, n: int)
    requires
        1 <= n <= ws.len(),
    ensures
        0 <= widest_upto(ws, n) < n,
        forall|i: int| 0 <= i < n ==> #[trigger] ws[i] <= ws[widest_upto(ws, n)],
    decreases n,
{
    if n > 1 {
        lemma_widest_is_widest(ws, n - 1);
    }
}

proof fn lemma_shrink_steps(ws: Seq<int>, budget: int, fuel: nat)
    requires
        all_positive(ws),
        fuel == seq_sum(ws),
        budget >= 0,
    ensures
        shrink_steps(ws, budget, fuel).len() == ws.len(),
        all_positive(shrink_steps(ws, budget, fuel)),
        forall|i: int| 0 <= i < ws.len() ==> #[trigger] shrink_steps(ws, budget, fuel)[i] <= ws[i],
        seq_sum(shrink_steps(ws, budget, fuel)) <= budget || forall|i: int|
            0 <= i < ws.len() ==> #[trigger] shrink_steps(ws, budget, fuel)[i] == 1,
    decreases fuel,
{
    if fuel > 0 && seq_sum(ws) > budget {
        if ws.len() == 0 {
            assert(seq_sum(ws) == 0);
        }
        lemma_widest_is_widest(ws, ws.len() as int);
        let c = widest(ws);
        if ws[c] > 1 {
            let next = ws.update(c, ws[c] - 1);
            lemma_seq_sum_update(ws, c, ws[c] - 1);
            lemma_shrink_steps(next, budget, (fuel - 1) as nat);
            assert forall|i: int| 0 <= i < ws.len() implies #[trigger] shrink_steps(ws, budget, fuel)[i] <= ws[i] by {
                assert(shrink_steps(next, budget, (fuel - 1) as nat)[i] <= next[i]);
            }
        } else {
            assert forall|i: int| 0 <= i < ws.len() implies #[trigger] shrink_steps(ws, budget, fuel)[i] == 1 by {
                assert(ws[i] <= ws[c]);
            }
        }
    }
}

/// The grid's columns fit the room left beside its borders, unless every
/// column is already down to one cell; no column is narrower than one cell
/// or wider than its widest cell.
pub proof fn lemma_grid_columns_fit(rows: Seq<Seq<usize>>, budget: int)
    requires
        budget >= 0,
    ensures
        fitted_widths(natural_widths(rows), budget).len() == column_count(rows),
        all_positive(fitted_widths(natural_widths(rows), budget)),
        forall|c: int|
            0 <= c < column_count(rows) ==> #[trigger] fitted_widths(natural_widths(rows), budget)[c]
                <= natural_width(rows, c),
        seq_sum(fitted_widths(natural_widths(rows), budget)) <= budget || forall|c: int|
            0 <= c < column_count(rows) ==> #[trigger] fitted_widths(natural_widths(rows), budget)[c] == 1,
{
    let ws = natural_widths(rows);
    lemma_natural_widths_positive(rows);
    lemma_seq_sum_nonneg(ws);
    lemma_shrink_steps(ws, budget, seq_sum(ws) as nat);
    assert forall|c: int| 0 <= c < column_count(rows) implies #[trigger] fitted_widths(ws, budget)[c] <= natural_width(rows, c) by {
        assert(fitted_widths(ws, budget)[c] <= ws[c]);
    }
}


/// Column `c`'s asked-for width is at least each of its cells and at least
/// one, and is one or one of its cells.
proof fn lemma_natural_width_is_widest_cell(rows: Seq<Seq<usize>>, c: int)
    requires
        0 <= c,
    ensures
        natural_width(rows, c) >= 1,
        forall|r: int| 0 <= r < rows.len() && 0 <= c < rows[r].len() ==> #[trigger] rows[r][c] <= natural_width(rows, c),
        natural_width(rows, c) == 1 || exists|r: int|
            0 <= r < rows.len() && 0 <= c < rows[r].len() && #[trigger] rows[r][c] == natural_width(rows, c),
    decreases rows.len(),
{
    if rows.len() > 0 {
        let before = rows.drop_last();
        lemma_natural_width_is_widest_cell(before, c);
        assert forall|r: int| 0 <= r < rows.len() && 0 <= c < rows[r].len() implies #[trigger] rows[r][c]
            <= natural_width(rows, c) by {
            if r < rows.len() - 1 {
                assert(before[r] == rows[r]);
            }
        }
        if natural_width(rows, c) != 1 {
            if natural_width(rows, c) == natural_width(before, c) {
                let r = choose|r: int|
                    0 <= r < before.len() && 0 <= c < before[r].len() && #[trigger] before[r][c] == natural_width(before, c);
                assert(before[r] == rows[r]);
                assert(rows[r][c] == natural_width(rows, c));
            } else {
                let r = rows.len() - 1;
                assert(rows[r][c] == natural_width(rows, c));
            }
        }
    }
}

proof fn lemma_seq_sum_le(a: Seq<int>, b: Seq<int>)
    requires
        a.len() == b.len(),
        forall|i: int| 0 <= i < a.len() ==> a[i] <= b[i],
    ensures
        seq_sum(a) <= seq_sum(b),
    decreases a.len(),
{
    if a.len() > 0 {
        lemma_seq_sum_le(a.drop_last(), b.drop_last());
    }
}

/// A grid column is never wider than its widest cell (or one, for a column
/// of narrower or missing cells): each fitted width is one or at most some
/// cell of its column.
pub proof fn lemma_grid_column_within_widest_cell(rows: Seq<Seq<usize>>, budget: int)
    requires
        budget >= 0,
    ensures
        forall|c: int|
            0 <= c < column_count(rows) ==> {
                let w = #[trigger] fitted_widths(natural_widths(rows), budget)[c];
                w == 1 || exists|r: int| 0 <= r < rows.len() && 0 <= c < rows[r].len() && w <= rows[r][c]
            },
{
    lemma_grid_columns_fit(rows, budget);
    assert forall|c: int| 0 <= c < column_count(rows) implies {
        let w = #[trigger] fitted_widths(natural_widths(rows), budget)[c];
        w == 1 || exists|r: int| 0 <= r < rows.len() && 0 <= c < rows[r].len() && w <= rows[r][c]
    } by {
        lemma_natural_width_is_widest_cell(rows, c);
        let w = fitted_widths(natural_widths(rows), budget)[c];
        if w != 1 {
            let r = choose|r: int|
                0 <= r < rows.len() && 0 <= c < rows[r].len() && #[trigger] rows[r][c] == natural_width(rows, c);
            assert(w <= rows[r][c]);
        }
    }
}

/// When the table fits, every grid column is exactly as wide as its widest
/// cell (at least one): given any column widths `bounds` that hold every
/// cell (each at least one) and add up to no more than `budget`, every cell
/// of every row fits its fitted column, and each fitted width is one or the
/// width of one of its column's cells.
pub proof fn lemma_grid_columns_take_widest_cells(rows: Seq<Seq<usize>>, bounds: Seq<int>, budget: int)
    requires
        bounds.len() == column_count(rows),
        forall|c: int| 0 <= c < bounds.len() ==> #[trigger] bounds[c] >= 1,
        forall|r: int, c: int| 0 <= r < rows.len() && 0 <= c < rows[r].len() ==> #[trigger] rows[r][c] <= bounds[c],
        seq_sum(bounds) <= budget,
    ensures
        fitted_widths(natural_widths(rows), budget).len() == column_count(rows),
        forall|r: int, c: int|
            0 <= r < rows.len() && 0 <= c < rows[r].len() ==> #[trigger] rows[r][c] <= fitted_widths(
                natural_widths(rows),
                budget,
            )[c],
        forall|c: int|
            0 <= c < column_count(rows) ==> {
                let w = #[trigger] fitted_widths(natural_widths(rows), budget)[c];
                w >= 1 && (w == 1 || exists|r: int| 0 <= r < rows.len() && 0 <= c < rows[r].len() && rows[r][c] == w)
            },
{
    let ws = natural_widths(rows);
    assert forall|c: int| 0 <= c < ws.len() implies ws[c] <= bounds[c] by {
        lemma_natural_width_is_widest_cell(rows, c);
        if ws[c] != 1 {
            let r = choose|r: int|
                0 <= r < rows.len() && 0 <= c < rows[r].len() && #[trigger] rows[r][c] == natural_width(rows, c);
            assert(rows[r][c] <= bounds[c]);
        }
    }
    lemma_seq_sum_le(ws, bounds);
    assert(fitted_widths(ws, budget) == ws);
    assert forall|r: int, c: int| 0 <= r < rows.len() && 0 <= c < rows[r].len() implies #[trigger] rows[r][c]
        <= fitted_widths(ws, budget)[c] by {
        lemma_column_count_bounds(rows, r);
        lemma_natural_width_is_widest_cell(rows, c);
    }
    assert forall|c: int| 0 <= c < column_count(rows) implies {
        let w = #[trigger] fitted_widths(ws, budget)[c];
        w >= 1 && (w == 1 || exists|r: int| 0 <= r < rows.len() && 0 <= c < rows[r].len() && rows[r][c] == w)
    } by {
        lemma_natural_width_is_widest_cell(rows, c);
    }
}


/// Shrinking takes from the widest column: once a column has given up
/// width, no column is more than one wider than it.
proof fn lemma_shrink_widest_first(orig: Seq<int>, ws: Seq<int>, budget: int, fuel: nat)
    requires
        budget >= 0,
        ws.len() == orig.len(),
        forall|i: int| 0 <= i < ws.len() ==> #[trigger] ws[i] <= orig[i],
        forall|i: int, j: int|
            0 <= i < ws.len() && 0 <= j < ws.len() && #[trigger] ws[i] < orig[i] ==> #[trigger] ws[j] <= ws[i] + 1,
    ensures
        shrink_steps(ws, budget, fuel).len() == orig.len(),
        forall|i: int, j: int|
            0 <= i < ws.len() && 0 <= j < ws.len() && #[trigger] shrink_steps(ws, budget, fuel)[i] < orig[i]
                ==> #[trigger] shrink_steps(ws, budget, fuel)[j] <= shrink_steps(ws, budget, fuel)[i] + 1,
    decreases fuel,
{
    if fuel > 0 && seq_sum(ws) > budget {
        if ws.len() == 0 {
            assert(seq_sum(ws) == 0);
        }
        lemma_widest_is_widest(ws, ws.len() as int);
        let c = widest(ws);
        if ws[c] > 1 {
            let next = ws.update(c, ws[c] - 1);
            assert forall|i: int| 0 <= i < next.len() implies #[trigger] next[i] <= orig[i] by {
                assert(ws[i] <= orig[i]);
            }
            assert forall|i: int, j: int|
                0 <= i < next.len() && 0 <= j < next.len() && #[trigger] next[i] < orig[i] implies #[trigger] next[j]
                    <= next[i] + 1 by {
                assert(ws[j] <= ws[c]);
                assert(ws[i] <= ws[c]);
                if i != c {
                    assert(ws[i] < orig[i]);
                    assert(ws[j] <= ws[i] + 1);
                }
            }
            lemma_shrink_steps_len(next, budget, (fuel - 1) as nat);
            lemma_shrink_widest_first(orig, next, budget, (fuel - 1) as nat);
        }
    }
}

proof fn lemma_shrink_steps_len(ws: Seq<int>, budget: int, fuel: nat)
    requires
        budget >= 0,
    ensures
        shrink_steps(ws, budget, fuel).len() == ws.len(),
    decreases fuel,
{
    if fuel > 0 && seq_sum(ws) > budget {
        if ws.len() == 0 {
            assert(seq_sum(ws) == 0);
        }
        lemma_widest_is_widest(ws, ws.len() as int);
        let c = widest(ws);
        if ws[c] > 1 {
            lemma_shrink_steps_len(ws.update(c, ws[c] - 1), budget, (fuel - 1) as nat);
        }
    }
}

/// A table too wide for the panel gives up width widest column first: a
/// column left narrower than one of its cells is at most one column
/// narrower than any other column of the grid.
pub proof fn lemma_grid_shrinks_widest_first(rows: Seq<Seq<usize>>, budget: int)
    requires
        budget >= 0,
    ensures
        forall|r: int, c: int, j: int|
            0 <= r < rows.len() && 0 <= c < rows[r].len() && 0 <= j < column_count(rows)
                && #[trigger] fitted_widths(natural_widths(rows), budget)[c] < #[trigger] rows[r][c]
                ==> #[trigger] fitted_widths(natural_widths(rows), budget)[j] <= fitted_widths(
                natural_widths(rows),
                budget,
            )[c] + 1,
{
    let ws = natural_widths(rows);
    lemma_shrink_widest_first(ws, ws, budget, seq_sum(ws) as nat);
    assert forall|r: int, c: int, j: int|
        0 <= r < rows.len() && 0 <= c < rows[r].len() && 0 <= j < column_count(rows)
            && #[trigger] fitted_widths(ws, budget)[c] < #[trigger] rows[r][c] implies #[trigger] fitted_widths(
        ws,
        budget,
    )[j] <= fitted_widths(ws, budget)[c] + 1 by {
        lemma_column_count_bounds(rows, r);
        lemma_natural_width_is_widest_cell(rows, c);
        assert(rows[r][c] <= ws[c]);
    }
}

} // verus!
