//! The integer geometry of the insights' signed column chart: the gaps and
//! column widths across the strip, and the rows above and below the zero
//! baseline. (How tall each bar stands is scaled in floating point and
//! drawn around the library.)
use vstd::prelude::*;
use crate::geometry::sat_sub;

verus! {

/// Where a signed column chart's pieces go: the padding at either end, the
/// gap between columns, each column's width, how many rows the positive half
/// above the baseline and the negative half below it have, and the
/// baseline's and the label row's offsets from the chart's top.
#[derive(Debug)]
pub struct SignedColumns {
    pub edge: usize,
    pub gap: usize,
    pub widths: Vec<usize>,
    pub up_rows: usize,
    pub down_rows: usize,
    pub baseline_row: u16,
    pub label_row: u16,
}

/// The gap between columns: one cell when the strip is more than twice as
/// wide as there are columns, none otherwise.
pub open spec fn spec_gap(width: int, n: int) -> int {
    if width > 2 * n { 1 } else { 0 }
}

/// The columns left for the bars once the padding and the gaps are taken.
pub open spec fn spec_inner(width: int, n: int) -> int {
    let gap = spec_gap(width, n);
    sat_sub(width, 2 * (gap / 2) + (n - 1) * gap)
}

/// Column `i`'s width: an even share of the bar columns (at least one), the
/// first `inner % n` columns one wider.
pub open spec fn spec_column_width(width: int, n: int, i: int) -> int {
    let inner = spec_inner(width, n);
    let base = if inner / n >= 1 { inner / n } else { 1 };
    base + if i < inner % n { 1int } else { 0int }
}

/// The chart's layout in an area `width` by `height` for `n` columns;
/// nothing for an empty area, one shorter than two rows, or no columns. Below
/// the plot is the label row; the plot's rows are split around a baseline
/// row, the positive half getting the smaller share.
pub fn signed_columns_layout(width: u16, height: u16, n: usize) -> (layout: Option<SignedColumns>)
    requires
        n <= usize::MAX / 2,
    ensures
        (width == 0 || height < 2 || n == 0) <==> layout is None,
        layout matches Some(l) ==> {
            let plot = height - 1;
            &&& l.gap == spec_gap(width as int, n as int)
            &&& l.edge == l.gap / 2
            &&& l.widths@.len() == n
            &&& forall|i: int| 0 <= i < n ==> #[trigger] l.widths@[i] == spec_column_width(width as int, n as int, i)
            &&& l.up_rows == (plot - 1) / 2
            &&& l.down_rows == plot - 1 - l.up_rows
            &&& l.baseline_row == l.up_rows
            &&& l.label_row == height - 1
        },
{
    if width == 0 || height < 2 || n == 0 {
        return None;
    }
    let w = width as usize;
    let gap: usize = if w > 2 * n { 1 } else { 0 };
    let edge = gap / 2;
    proof {
        assert((n - 1) * gap <= n) by (nonlinear_arith)
            requires gap <= 1, n >= 1;
    }
    let taken = 2 * edge + (n - 1) * gap;
    let inner = w.saturating_sub(taken);
    let base = if inner / n >= 1 { inner / n } else { 1 };
    let extra = inner % n;
    proof {
        assert(inner / n <= inner) by (nonlinear_arith) requires n >= 1, inner >= 0;
    }
    let mut widths: Vec<usize> = Vec::new();
    let mut i: usize = 0;
    while i < n
        invariant
            i <= n,
            n >= 1,
            w == width as usize,
            inner as int == spec_inner(width as int, n as int),
            base as int == (if inner / n >= 1 { inner / n } else { 1 }),
            base <= 65535,
            extra == inner % n,
            widths@.len() == i,
            forall|k: int| 0 <= k < i ==> #[trigger] widths@[k] == spec_column_width(width as int, n as int, k),
        decreases n - i,
    {
        let cw = if i < extra { base + 1 } else { base };
        widths.push(cw);
        i += 1;
    }
    let plot = (height - 1) as usize;
    let up = if plot >= 1 { (plot - 1) / 2 } else { 0 };
    let down = plot - 1 - up;
    Some(SignedColumns {
        edge,
        gap,
        widths,
        up_rows: up,
        down_rows: down,
        baseline_row: up as u16,
        label_row: height - 1,
    })
}

} // verus!
