//! Sizing and binning for the insights tabs: histogram bins, the scrolling
//! window of ranked lists, the correlate table's column widths, and the bar
//! glyph ramps.
use vstd::prelude::*;
use crate::geometry::Rect;
use crate::geometry::sat_sub;
use crate::split::{part_of, split_area, within, Axis, Packing, SizeRule};
use crate::hints::seq_sum;
use crate::scroll::min_int;
use crate::text::{decimal, decimal_string, display_width, repeat_char, repeat_string, str_width, string_of};

verus! {

/// How many hour bins fit `width` (one cell and a gap per bin): all 24, else
/// 12 two-hour bins, else 8 three-hour bins.
pub fn hour_bins(width: u16) -> (bins: usize)
    ensures
        bins == (if width >= 47 {
            24usize
        } else if width >= 23 {
            12usize
        } else {
            8usize
        }),
{
    if width >= 47 {
        24
    } else if width >= 23 {
        12
    } else {
        8
    }
}

/// The values as integers.
pub open spec fn ints(values: Seq<usize>) -> Seq<int> {
    values.map_values(|v: usize| v as int)
}

/// Where bin `k` of `groups` starts among `n` values: every bin holds
/// `n / groups` values, and the first `n % groups` bins one more.
pub open spec fn bin_start(n: int, groups: int, k: int) -> int {
    k * (n / groups) + if k < n % groups { k } else { n % groups }
}

/// The binned values: unchanged when no grouping is asked for (or there are
/// no more values than groups), else exactly `groups` contiguous bins, the
/// remainder spread over the first ones, each bin summed.
pub open spec fn spec_bin(values: Seq<usize>, groups: int) -> Seq<int> {
    if groups == 0 || groups >= values.len() {
        ints(values)
    } else {
        Seq::new(
            groups as nat,
            |k: int| seq_sum(ints(values).subrange(bin_start(values.len() as int, groups, k), bin_start(values.len() as int, groups, k + 1))),
        )
    }
}

pub proof fn lemma_seq_sum_append(a: Seq<int>, b: Seq<int>)
    ensures
        seq_sum(a + b) == seq_sum(a) + seq_sum(b),
    decreases b.len(),
{
    if b.len() == 0 {
        assert(a + b =~= a);
    } else {
        lemma_seq_sum_append(a, b.drop_last());
        assert((a + b).drop_last() =~= a + b.drop_last());
    }
}

pub proof fn lemma_seq_sum_nonneg(s: Seq<int>)
    requires
        forall|i: int| 0 <= i < s.len() ==> #[trigger] s[i] >= 0,
    ensures
        seq_sum(s) >= 0,
    decreases s.len(),
{
    if s.len() > 0 {
        lemma_seq_sum_nonneg(s.drop_last());
    }
}

/// Grouping keeps the total.
pub proof fn lemma_seq_sum_single(x: int)
    ensures
        seq_sum(seq![x]) == x,
{
    let s = seq![x];
    assert(s.drop_last() =~= Seq::<int>::empty());
    assert(seq_sum(Seq::<int>::empty()) == 0);
}

pub proof fn lemma_prefix_step(s: Seq<int>, k: int)
    requires
        0 <= k < s.len(),
    ensures
        seq_sum(s.take(k + 1)) == seq_sum(s.take(k)) + s[k],
{
    assert(s.take(k + 1).drop_last() =~= s.take(k));
}

pub proof fn lemma_prefix_monotone(s: Seq<int>, i: int, j: int)
    requires
        0 <= i <= j <= s.len(),
        forall|k: int| 0 <= k < s.len() ==> #[trigger] s[k] >= 0,
    ensures
        seq_sum(s.take(i)) <= seq_sum(s.take(j)),
    decreases j - i,
{
    if i < j {
        lemma_prefix_monotone(s, i, j - 1);
        lemma_prefix_step(s, j - 1);
    }
}

pub proof fn lemma_subrange_sum(s: Seq<int>, a: int, b: int)
    requires
        0 <= a <= b <= s.len(),
    ensures
        seq_sum(s.subrange(a, b)) == seq_sum(s.take(b)) - seq_sum(s.take(a)),
{
    assert(s.take(b) =~= s.take(a) + s.subrange(a, b));
    lemma_seq_sum_append(s.take(a), s.subrange(a, b));
}

/// Bin starts grow by `n / groups` and one more for the first
/// `n % groups` bins, and the last bin ends at `n`.
proof fn lemma_bin_start_step(n: int, groups: int, k: int)
    requires
        0 < groups < n,
        0 <= k < groups,
    ensures
        bin_start(n, groups, k + 1) == bin_start(n, groups, k) + n / groups + if k < n % groups { 1int } else { 0int },
        0 <= bin_start(n, groups, k) < bin_start(n, groups, k + 1) <= n,
        bin_start(n, groups, 0) == 0,
        bin_start(n, groups, groups) == n,
{
    let q = n / groups;
    let r = n % groups;
    assert((k + 1) * q == k * q + q) by (nonlinear_arith);
    assert(n == groups * q + r && 0 <= r < groups && q >= 1) by (nonlinear_arith)
        requires 0 < groups < n, q == n / groups, r == n % groups;
    assert(0 <= k * q && (k + 1) * q <= groups * q) by (nonlinear_arith)
        requires 0 <= k < groups, q >= 1;
    assert(groups * q == q * groups) by (nonlinear_arith);
    assert(0 * q == 0) by (nonlinear_arith);
}

/// The bins up to `k` sum the values before bin `k`'s start.
proof fn lemma_bins_prefix_total(values: Seq<usize>, groups: int, k: int)
    requires
        0 < groups < values.len(),
        0 <= k <= groups,
    ensures
        seq_sum(spec_bin(values, groups).take(k)) == seq_sum(ints(values).take(bin_start(values.len() as int, groups, k))),
    decreases k,
{
    let n = values.len() as int;
    let all = ints(values);
    if k == 0 {
        lemma_bin_start_step(n, groups, 0);
        assert(spec_bin(values, groups).take(0) =~= Seq::<int>::empty());
        assert(all.take(0) =~= Seq::<int>::empty());
    } else {
        lemma_bins_prefix_total(values, groups, k - 1);
        lemma_bin_start_step(n, groups, k - 1);
        assert(spec_bin(values, groups).take(k).drop_last() =~= spec_bin(values, groups).take(k - 1));
        lemma_subrange_sum(all, bin_start(n, groups, k - 1), bin_start(n, groups, k));
    }
}

/// Binning keeps the total of the values: every value lands in exactly one
/// bin.
pub proof fn lemma_bin_keeps_total(values: Seq<usize>, groups: int)
    requires
        0 <= groups,
    ensures
        seq_sum(spec_bin(values, groups)) == seq_sum(ints(values)),
{
    if !(groups == 0 || groups >= values.len()) {
        lemma_bins_prefix_total(values, groups, groups);
        lemma_bin_start_step(values.len() as int, groups, groups - 1);
        assert(spec_bin(values, groups).take(groups) =~= spec_bin(values, groups));
        assert(ints(values).take(values.len() as int) =~= ints(values));
    }
}

/// Group `values` into `groups` contiguous bins, summing each: exactly
/// `groups` bins when there are more values than groups (the first
/// `len % groups` bins take one value more), the values themselves
/// otherwise.
pub fn bin(values: &[usize], groups: usize) -> (bins: Vec<usize>)
    requires
        seq_sum(ints(values@)) <= usize::MAX,
    ensures
        ints(bins@) == spec_bin(values@, groups as int),
        0 < groups < values@.len() ==> bins@.len() == groups,
{
    if groups == 0 || groups >= values.len() {
        let mut copy: Vec<usize> = Vec::new();
        let mut i = 0usize;
        while i < values.len()
            invariant
                i <= values@.len(),
                copy@ == values@.take(i as int),
            decreases values@.len() - i,
        {
            copy.push(values[i]);
            i += 1;
            assert(copy@ =~= values@.take(i as int));
        }
        assert(values@.take(values@.len() as int) =~= values@);
        assert(ints(copy@) =~= ints(values@));
        return copy;
    }
    let n = values.len();
    let q = n / groups;
    let r = n % groups;
    let ghost all = ints(values@);
    proof {
        assert(forall|i: int| 0 <= i < all.len() ==> #[trigger] all[i] >= 0);
        assert(all.take(n as int) =~= all);
        lemma_bin_start_step(n as int, groups as int, 0);
    }
    let mut bins: Vec<usize> = Vec::new();
    let mut start = 0usize;
    let mut k = 0usize;
    while k < groups
        invariant
            n == values@.len(),
            0 < groups < n,
            q == n / groups,
            r == n % groups,
            all == ints(values@),
            k <= groups,
            start as int == bin_start(n as int, groups as int, k as int),
            seq_sum(all.take(n as int)) <= usize::MAX,
            forall|i: int| 0 <= i < all.len() ==> #[trigger] all[i] >= 0,
            bins@.len() == k,
            forall|j: int| 0 <= j < k ==> #[trigger] ints(bins@)[j] == spec_bin(values@, groups as int)[j],
        decreases groups - k,
    {
        proof {
            lemma_bin_start_step(n as int, groups as int, k as int);
        }
        let end = if k < r { start + q + 1 } else { start + q };
        let mut sum = 0usize;
        let mut i = start;
        proof {
            lemma_subrange_sum(all, start as int, end as int);
            lemma_prefix_monotone(all, start as int, end as int);
            lemma_prefix_monotone(all, end as int, n as int);
            lemma_seq_sum_nonneg(all.take(start as int));
        }
        while i < end
            invariant
                start <= i <= end <= n,
                n == values@.len(),
                all == ints(values@),
                sum as int == seq_sum(all.subrange(start as int, i as int)),
                seq_sum(all.subrange(start as int, end as int)) <= usize::MAX,
                forall|j: int| 0 <= j < all.len() ==> #[trigger] all[j] >= 0,
            decreases end - i,
        {
            proof {
                assert(all.subrange(start as int, i + 1).drop_last() =~= all.subrange(start as int, i as int));
                lemma_subrange_sum(all, start as int, i + 1);
                lemma_subrange_sum(all, start as int, end as int);
                lemma_prefix_monotone(all, i + 1, end as int);
                lemma_prefix_step(all, i as int);
            }
            sum = sum + values[i];
            i += 1;
        }
        let ghost old_bins = bins@;
        bins.push(sum);
        proof {
            assert(end as int == bin_start(n as int, groups as int, k + 1));
            assert(i == end);
            assert(spec_bin(values@, groups as int)[k as int] == seq_sum(all.subrange(start as int, end as int)));
            assert(ints(bins@)[k as int] == sum as int);
            assert forall|j: int| 0 <= j < k + 1 implies #[trigger] ints(bins@)[j] == spec_bin(values@, groups as int)[j] by {
                if j < k {
                    assert(bins@[j] == old_bins[j]);
                    assert(ints(old_bins)[j] == spec_bin(values@, groups as int)[j]);
                }
            }
        }
        start = end;
        k += 1;
    }
    assert(ints(bins@) =~= spec_bin(values@, groups as int));
    bins
}

/// Clamp `*scroll` so the last row can still reach the bottom of a
/// `viewport`-row window, and return the visible slice's row range.
pub fn visible_range(total: usize, viewport: usize, scroll: &mut u16) -> (range:
    std::ops::Range<usize>)
    requires
        min_int(*old(scroll) as int, sat_sub(total as int, viewport as int)) + viewport
            <= usize::MAX,
    ensures
        *final(scroll) == min_int(*old(scroll) as int, sat_sub(total as int, viewport as int)),
        range.start == *final(scroll),
        range.end == min_int(range.start + viewport, total as int),
{
    let max_scroll = total.saturating_sub(viewport);
    let requested = *scroll as usize;
    let start = if requested < max_scroll {
        requested
    } else {
        max_scroll
    };
    *scroll = start as u16;
    let end = if start + viewport < total {
        start + viewport
    } else {
        total
    };
    start..end
}

/// Fixed inner content widths of the numeric correlate columns.
pub const COUNT_W: usize = 5;
pub const AVG_W: usize = 5;
pub const DELTA_W: usize = 5;

/// Resolved inner content widths of the correlate table's flexible columns;
/// the bar is dropped when there is no room for a legible one.
#[derive(Clone, Copy, Debug, PartialEq, Eq)]
pub struct Columns {
    pub name: usize,
    pub bar: Option<usize>,
    pub feeling: usize,
}

impl Columns {
    /// The minimum each flexible column needs before it earns its place.
    pub const NAME_MIN: usize = 10;
    pub const FEELING_MIN: usize = 8;
    pub const BAR_MIN: usize = 13;

    /// The table with a bar column fits `panel_width`.
    pub open spec fn bar_fits(panel_width: int) -> bool {
        panel_width - 19 - 15 >= 10 + 8 + 13
    }

    /// The bar-less table fits `panel_width`.
    pub open spec fn plain_fits(panel_width: int) -> bool {
        panel_width - 16 - 15 >= 10 + 8
    }

    /// Fit the columns to `panel_width`, preferring a bar column and falling
    /// back to a bar-less table; `None` when even that is too cramped to
    /// border. Name and feeling grow at weight 3, the bar at weight 4 and takes
    /// the rounding remainder; without a bar the name takes half the slack.
    pub fn fit(panel_width: usize) -> (columns: Option<Columns>)
        requires
            Self::bar_fits(panel_width as int) ==> (panel_width - 65) * 3 <= usize::MAX,
        ensures
            columns == (if panel_width < 19 {
                None
            } else if Self::bar_fits(panel_width as int) {
                let flex = panel_width - 19 - 15;
                let extra = flex - 31;
                let name = 10 + extra * 3 / 10;
                let feeling = 8 + extra * 3 / 10;
                Some(
                    Columns {
                        name: name as usize,
                        bar: Some((flex - name - feeling) as usize),
                        feeling: feeling as usize,
                    },
                )
            } else if Self::plain_fits(panel_width as int) {
                let flex = panel_width - 16 - 15;
                let extra = flex - 18;
                let name = 10 + extra / 2;
                Some(
                    Columns { name: name as usize, bar: None, feeling: (flex - name) as usize },
                )
            } else {
                None
            }),
    {
        // A row is `│ c0 │ c1 … │`: `cols + 1` verticals plus two pad cells per
        // column, so the content widths share `width - (3 * cols + 1)`.
        let fixed = COUNT_W + AVG_W + DELTA_W;
        if panel_width < 3 * 6 + 1 {
            return None;
        }
        let inner = panel_width - (3 * 6 + 1);
        if inner >= fixed {
            let flex = inner - fixed;
            let need = Self::NAME_MIN + Self::FEELING_MIN + Self::BAR_MIN;
            if flex >= need {
                let extra = flex - need;
                proof {
                    assert(extra * 3 / 10 <= extra) by (nonlinear_arith)
                        requires extra >= 0;
                }
                let name = Self::NAME_MIN + extra * 3 / 10;
                let feeling = Self::FEELING_MIN + extra * 3 / 10;
                let bar = flex - name - feeling;
                return Some(Columns { name, bar: Some(bar), feeling });
            }
        }
        let inner = panel_width - (3 * 5 + 1);
        if inner < fixed {
            return None;
        }
        let flex = inner - fixed;
        let need = Self::NAME_MIN + Self::FEELING_MIN;
        if flex < need {
            return None;
        }
        let extra = flex - need;
        let name = Self::NAME_MIN + extra / 2;
        Some(Columns { name, bar: None, feeling: flex - name })
    }

    /// The content widths in column order: name, count, average, delta, the
    /// bar when present, feeling.
    pub fn widths(&self) -> (widths: Vec<usize>)
        ensures
            widths@ == seq![self.name, COUNT_W, AVG_W, DELTA_W] + (match self.bar {
                Some(bar) => seq![bar],
                None => Seq::empty(),
            }) + seq![self.feeling],
    {
        let mut widths = Vec::new();
        widths.push(self.name);
        widths.push(COUNT_W);
        widths.push(AVG_W);
        widths.push(DELTA_W);
        if let Some(bar) = self.bar {
            widths.push(bar);
        }
        widths.push(self.feeling);
        assert(widths@ =~= seq![self.name, COUNT_W, AVG_W, DELTA_W] + (match self.bar {
            Some(bar) => seq![bar],
            None => Seq::empty(),
        }) + seq![self.feeling]);
        widths
    }
}

/// A fitted table tiles the panel: its content widths plus `│ … ` padding and
/// the borders add up to exactly the panel width.
pub proof fn lemma_columns_tile_panel(panel_width: usize)
    requires
        panel_width >= 19,
        Columns::bar_fits(panel_width as int) || Columns::plain_fits(panel_width as int),
    ensures
        ({
            let cols: Columns = if Columns::bar_fits(panel_width as int) {
                let flex = panel_width - 19 - 15;
                let extra = flex - 31;
                let name = 10 + extra * 3 / 10;
                let feeling = 8 + extra * 3 / 10;
                Columns {
                    name: name as usize,
                    bar: Some((flex - name - feeling) as usize),
                    feeling: feeling as usize,
                }
            } else {
                let flex = panel_width - 16 - 15;
                let extra = flex - 18;
                let name = 10 + extra / 2;
                Columns { name: name as usize, bar: None, feeling: (flex - name) as usize }
            };
            let count = if cols.bar is Some {
                6int
            } else {
                5int
            };
            cols.name + COUNT_W + AVG_W + DELTA_W + (match cols.bar {
                Some(bar) => bar as int,
                None => 0,
            }) + cols.feeling + 3 * count + 1 == panel_width
        }),
{
    if Columns::bar_fits(panel_width as int) {
        let extra = panel_width - 19 - 15 - 31;
        assert(extra * 3 / 10 <= extra) by (nonlinear_arith)
            requires extra >= 0;
    }
}

/// One entry in a vertical stack: a minimum height to be included at all,
/// and a fill weight for sharing the leftover rows.
#[derive(Clone, Copy, Debug, PartialEq, Eq)]
pub struct Section {
    pub min: u16,
    pub fill: u16,
}

impl Section {
    pub fn new(min: u16, fill: u16) -> (section: Self)
        ensures
            section == (Section { min, fill }),
    {
        Self { min, fill }
    }
}

/// The rows the sections before `k` take at their minimum, counting only those
/// included: a section is included when its minimum still fits under what the
/// earlier included sections used.
pub open spec fn used_upto(sections: Seq<Section>, height: int, k: int) -> int
    decreases k,
{
    if k <= 0 {
        0
    } else {
        let u = used_upto(sections, height, k - 1);
        if u + sections[k - 1].min <= height { u + sections[k - 1].min } else { u }
    }
}

/// Whether section `i` is part of the stack.
pub open spec fn stack_includes(sections: Seq<Section>, height: int, i: int) -> bool {
    used_upto(sections, height, i) + sections[i].min <= height
}

/// The fill weights of the included sections before `k`.
pub open spec fn fill_upto(sections: Seq<Section>, height: int, k: int) -> int
    decreases k,
{
    if k <= 0 {
        0
    } else {
        fill_upto(sections, height, k - 1) + if stack_includes(sections, height, k - 1) {
            sections[k - 1].fill as int
        } else {
            0
        }
    }
}

/// The last included section before `k` with a fill weight.
pub open spec fn last_filler(sections: Seq<Section>, height: int, k: int) -> Option<int>
    decreases k,
{
    if k <= 0 {
        None
    } else if stack_includes(sections, height, k - 1) && sections[k - 1].fill > 0 {
        Some(k - 1)
    } else {
        last_filler(sections, height, k - 1)
    }
}

/// What an included filling section other than the last gets of the `extra`
/// rows: its weighted share, rounded down.
pub open spec fn plain_share(sections: Seq<Section>, height: int, i: int) -> int {
    let n = sections.len() as int;
    let total = fill_upto(sections, height, n);
    let extra = height - used_upto(sections, height, n);
    if stack_includes(sections, height, i) && sections[i].fill > 0 && total > 0
        && last_filler(sections, height, n) != Some(i) {
        extra * sections[i].fill / total
    } else {
        0
    }
}

/// The plain shares handed out before `k`.
pub open spec fn assigned_upto(sections: Seq<Section>, height: int, k: int) -> int
    decreases k,
{
    if k <= 0 {
        0
    } else {
        assigned_upto(sections, height, k - 1) + plain_share(sections, height, k - 1)
    }
}

/// The height of section `i` when included: its minimum plus its share of
/// the extra rows, the last filling section taking what the others left.
pub open spec fn stacked_height(sections: Seq<Section>, height: int, i: int) -> int {
    let n = sections.len() as int;
    let extra = height - used_upto(sections, height, n);
    if last_filler(sections, height, n) == Some(i) {
        sections[i].min + (extra - assigned_upto(sections, height, i))
    } else {
        sections[i].min + plain_share(sections, height, i)
    }
}

/// The rows the included sections before `k` take.
pub open spec fn stacked_upto(sections: Seq<Section>, height: int, k: int) -> int
    decreases k,
{
    if k <= 0 {
        0
    } else {
        stacked_upto(sections, height, k - 1) + if stack_includes(sections, height, k - 1) {
            stacked_height(sections, height, k - 1)
        } else {
            0
        }
    }
}

/// The stacked rect of each section, `None` for one left out.
pub open spec fn spec_stack(area: Rect, sections: Seq<Section>) -> Seq<Option<Rect>> {
    let h = area.height as int;
    Seq::new(
        sections.len(),
        |i: int|
            if stack_includes(sections, h, i) {
                Some(
                    Rect {
                        x: area.x,
                        y: (area.y + stacked_upto(sections, h, i)) as u16,
                        width: area.width,
                        height: stacked_height(sections, h, i) as u16,
                    },
                )
            } else {
                None
            },
    )
}

proof fn lemma_used_upto_bounds(sections: Seq<Section>, height: int, k: int)
    requires
        0 <= k,
        height >= 0,
    ensures
        0 <= used_upto(sections, height, k) <= height,
    decreases k,
{
    if k > 0 {
        lemma_used_upto_bounds(sections, height, k - 1);
    }
}

proof fn lemma_fill_upto_nonneg(sections: Seq<Section>, height: int, k: int)
    ensures
        0 <= fill_upto(sections, height, k),
    decreases k,
{
    if k > 0 {
        lemma_fill_upto_nonneg(sections, height, k - 1);
    }
}

proof fn lemma_fill_upto_monotone(sections: Seq<Section>, height: int, j: int, k: int)
    requires
        0 <= j <= k,
    ensures
        0 <= fill_upto(sections, height, j) <= fill_upto(sections, height, k),
    decreases k - j,
{
    lemma_fill_upto_nonneg(sections, height, j);
    if j < k {
        lemma_fill_upto_monotone(sections, height, j, k - 1);
    }
}

/// A filler makes the total fill positive.
proof fn lemma_filler_fills(sections: Seq<Section>, height: int, l: int)
    requires
        0 <= l < sections.len(),
        stack_includes(sections, height, l),
        sections[l].fill > 0,
    ensures
        fill_upto(sections, height, sections.len() as int) > 0,
{
    lemma_fill_upto_nonneg(sections, height, l);
    assert(fill_upto(sections, height, l + 1) == fill_upto(sections, height, l) + sections[l].fill);
    lemma_fill_upto_monotone(sections, height, l + 1, sections.len() as int);
}

/// The last filler before `k` is included, fills, and no included section
/// between it and `k` fills; without one, nothing before `k` fills.
proof fn lemma_last_filler(sections: Seq<Section>, height: int, k: int)
    requires
        0 <= k <= sections.len(),
    ensures
        match last_filler(sections, height, k) {
            Some(l) => 0 <= l < k && stack_includes(sections, height, l) && sections[l].fill > 0
                && forall|j: int| l < j < k ==> !(#[trigger] stack_includes(sections, height, j)
                && sections[j].fill > 0),
            None => fill_upto(sections, height, k) == 0 && forall|j: int| 0 <= j < k ==> !(
            #[trigger] stack_includes(sections, height, j) && sections[j].fill > 0),
        },
    decreases k,
{
    if k > 0 {
        lemma_last_filler(sections, height, k - 1);
    }
}

/// Handed-out plain shares never exceed the weighted part of the extra rows.
proof fn lemma_assigned_bound(sections: Seq<Section>, height: int, k: int)
    requires
        0 <= k <= sections.len(),
        height - used_upto(sections, height, sections.len() as int) >= 0,
    ensures
        assigned_upto(sections, height, k) >= 0,
        assigned_upto(sections, height, k) * fill_upto(sections, height, sections.len() as int)
            <= (height - used_upto(sections, height, sections.len() as int)) * fill_upto(
            sections,
            height,
            k,
        ),
    decreases k,
{
    if k > 0 {
        lemma_assigned_bound(sections, height, k - 1);
        let n = sections.len() as int;
        let t = fill_upto(sections, height, n);
        let e = height - used_upto(sections, height, n);
        let a = assigned_upto(sections, height, k - 1);
        let f = fill_upto(sections, height, k - 1);
        let ps = plain_share(sections, height, k - 1);
        let w = sections[k - 1].fill as int;
        lemma_fill_upto_monotone(sections, height, 0, k - 1);
        if ps != 0 {
            assert(ps == e * w / t);
            assert(t > 0);
            assert(ps >= 0 && ps * t <= e * w) by (nonlinear_arith)
                requires ps == e * w / t, t > 0, e >= 0, w >= 0;
            assert(stack_includes(sections, height, k - 1));
            assert((a + ps) * t <= e * (f + w)) by (nonlinear_arith)
                requires a * t <= e * f, ps * t <= e * w;
        } else {
            let f2 = fill_upto(sections, height, k);
            assert(f2 >= f);
            assert(a * t <= e * f2) by (nonlinear_arith)
                requires a * t <= e * f, f2 >= f, e >= 0;
        }
    }
}

/// The rows stacked so far: the included minimums, the plain shares, and —
/// once past it — the last filler's remainder.
proof fn lemma_stacked_upto(sections: Seq<Section>, height: int, k: int)
    requires
        0 <= k <= sections.len(),
    ensures
        stacked_upto(sections, height, k) == used_upto(sections, height, k) + assigned_upto(
            sections,
            height,
            k,
        ) + last_remainder(sections, height, k),
    decreases k,
{
    if k == 0 {
        lemma_last_filler(sections, height, sections.len() as int);
        assert(last_remainder(sections, height, 0) == 0);
    } else {
        lemma_stacked_upto(sections, height, k - 1);
        let n = sections.len() as int;
        let i = k - 1;
        assert(assigned_upto(sections, height, k) == assigned_upto(sections, height, i)
            + plain_share(sections, height, i));
        if stack_includes(sections, height, i) {
            assert(used_upto(sections, height, k) == used_upto(sections, height, i)
                + sections[i].min);
            assert(stacked_upto(sections, height, k) == stacked_upto(sections, height, i)
                + stacked_height(sections, height, i));
            if last_filler(sections, height, n) == Some(i) {
                assert(plain_share(sections, height, i) == 0);
                assert(last_remainder(sections, height, i) == 0);
                assert(last_remainder(sections, height, k) == (height - used_upto(sections, height, n))
                    - assigned_upto(sections, height, i));
                assert(stacked_height(sections, height, i) == sections[i].min + (height - used_upto(
                    sections,
                    height,
                    n,
                )) - assigned_upto(sections, height, i));
            } else {
                assert(last_remainder(sections, height, k) == last_remainder(sections, height, i));
                assert(stacked_height(sections, height, i) == sections[i].min + plain_share(
                    sections,
                    height,
                    i,
                ));
            }
        } else {
            assert(used_upto(sections, height, k) == used_upto(sections, height, i));
            assert(plain_share(sections, height, i) == 0);
            assert(stacked_upto(sections, height, k) == stacked_upto(sections, height, i));
            if last_filler(sections, height, n) == Some(i) {
                lemma_last_filler(sections, height, n);
            }
            assert(last_remainder(sections, height, k) == last_remainder(sections, height, i));
        }
    }
}

/// Once past the last filler: what it took beyond its share, i.e. the extra
/// rows less the plain shares handed out before it.
pub open spec fn last_remainder(sections: Seq<Section>, height: int, k: int) -> int {
    match last_filler(sections, height, sections.len() as int) {
        Some(l) => if l < k {
            (height - used_upto(sections, height, sections.len() as int)) - assigned_upto(
                sections,
                height,
                l,
            )
        } else {
            0
        },
        None => 0,
    }
}

/// No plain share is handed out past the last filler.
proof fn lemma_assigned_after_last(sections: Seq<Section>, height: int, l: int, k: int)
    requires
        0 <= l < k <= sections.len(),
        last_filler(sections, height, sections.len() as int) == Some(l),
    ensures
        assigned_upto(sections, height, k) == assigned_upto(sections, height, l),
    decreases k,
{
    lemma_last_filler(sections, height, sections.len() as int);
    if k - 1 > l {
        lemma_assigned_after_last(sections, height, l, k - 1);
        assert(!(stack_includes(sections, height, k - 1) && sections[k - 1].fill > 0));
    }
}

/// The stack uses the whole area whenever a section fills: the included
/// sections' heights add up to the area's height; with no filling section
/// they add up to their minimums. Every included section ends inside the
/// area.
pub proof fn lemma_stack_fills_the_area(height: int, sections: Seq<Section>)
    requires
        height >= 0,
    ensures
        stacked_upto(sections, height, sections.len() as int) == if fill_upto(
            sections,
            height,
            sections.len() as int,
        ) > 0 {
            height
        } else {
            used_upto(sections, height, sections.len() as int)
        },
        forall|i: int| 0 <= i < sections.len() ==> #[trigger] section_within(sections, height, i),
{
    let n = sections.len() as int;
    lemma_used_upto_bounds(sections, height, n);
    lemma_last_filler(sections, height, n);
    lemma_stacked_upto(sections, height, n);
    lemma_assigned_bound(sections, height, n);
    match last_filler(sections, height, n) {
        Some(l) => {
            lemma_assigned_after_last(sections, height, l, n);
            lemma_filler_fills(sections, height, l);
        },
        None => {
            lemma_assigned_zero_without_fill(sections, height, n);
        },
    }
    assert forall|i: int| 0 <= i < sections.len() implies #[trigger] section_within(
        sections,
        height,
        i,
    ) by {
        if stack_includes(sections, height, i) {
            lemma_stack_prefix_bound(sections, height, i + 1);
            lemma_stack_prefix_bound(sections, height, i);
            assert(stacked_upto(sections, height, i + 1) == stacked_upto(sections, height, i)
                + stacked_height(sections, height, i));
        }
    }
}

/// The leftover rows are shared by fill weight: an included filling section
/// with an included filling section after it grows beyond its minimum by
/// its weighted share of the extra rows (the area's rows less the included
/// minimums) out of the included sections' total weight, rounded down.
pub proof fn lemma_stack_shares_by_weight(area: Rect, sections: Seq<Section>, i: int, j: int)
    requires
        0 <= i < j < sections.len(),
        stack_includes(sections, area.height as int, i),
        sections[i].fill > 0,
        stack_includes(sections, area.height as int, j),
        sections[j].fill > 0,
    ensures
        ({
            let h = area.height as int;
            let n = sections.len() as int;
            let extra = h - used_upto(sections, h, n);
            let total = fill_upto(sections, h, n);
            let fill = sections[i].fill as int;
            &&& spec_stack(area, sections)[i] is Some
            &&& ({
                let share = spec_stack(area, sections)[i]->0.height - sections[i].min;
                &&& total > 0
                &&& 0 <= share
                &&& share * total <= extra * fill
                &&& extra * fill < (share + 1) * total
            })
        }),
{
    let h = area.height as int;
    let n = sections.len() as int;
    let extra = h - used_upto(sections, h, n);
    let total = fill_upto(sections, h, n);
    let fill = sections[i].fill as int;
    lemma_used_upto_bounds(sections, h, n);
    lemma_last_filler(sections, h, n);
    lemma_filler_fills(sections, h, i);
    assert(last_filler(sections, h, n) != Some(i));
    lemma_stack_fills_the_area(h, sections);
    assert(section_within(sections, h, i));
    let q = extra * fill / total;
    assert(plain_share(sections, h, i) == q);
    assert(stacked_height(sections, h, i) == sections[i].min + q);
    assert(extra * fill >= 0) by (nonlinear_arith)
        requires extra >= 0, fill >= 0;
    assert(q * total <= extra * fill && extra * fill < (q + 1) * total && q >= 0) by (nonlinear_arith)
        requires q == extra * fill / total, total > 0, extra * fill >= 0;
}

/// A heavier weight never gets fewer of the extra rows: of two included
/// filling sections, each followed by a later included filling section, the
/// one with the larger fill weight grows at least as much.
pub proof fn lemma_stack_heavier_grows_more(area: Rect, sections: Seq<Section>, a: int, b: int, later: int)
    requires
        0 <= a < sections.len(),
        0 <= b < sections.len(),
        a < later < sections.len(),
        b < later,
        stack_includes(sections, area.height as int, a),
        stack_includes(sections, area.height as int, b),
        stack_includes(sections, area.height as int, later),
        sections[a].fill > 0,
        sections[later].fill > 0,
        sections[a].fill <= sections[b].fill,
    ensures
        spec_stack(area, sections)[a] is Some,
        spec_stack(area, sections)[b] is Some,
        spec_stack(area, sections)[a]->0.height - sections[a].min <= spec_stack(area, sections)[b]->0.height
            - sections[b].min,
{
    lemma_stack_shares_by_weight(area, sections, a, later);
    lemma_stack_shares_by_weight(area, sections, b, later);
    let h = area.height as int;
    let n = sections.len() as int;
    let extra = h - used_upto(sections, h, n);
    let total = fill_upto(sections, h, n);
    let fa = sections[a].fill as int;
    let fb = sections[b].fill as int;
    let sa = spec_stack(area, sections)[a]->0.height - sections[a].min;
    let sb = spec_stack(area, sections)[b]->0.height - sections[b].min;
    lemma_used_upto_bounds(sections, h, n);
    assert(extra * fa <= extra * fb) by (nonlinear_arith)
        requires extra >= 0, fa <= fb;
    assert(sa <= sb) by (nonlinear_arith)
        requires sa * total <= extra * fa, extra * fa <= extra * fb, extra * fb < (sb + 1) * total, total > 0;
}

/// An included section starts and ends inside the area.
pub open spec fn section_within(sections: Seq<Section>, height: int, i: int) -> bool {
    stack_includes(sections, height, i) ==> 0 <= stacked_upto(sections, height, i)
        && stacked_upto(sections, height, i) + stacked_height(sections, height, i) <= height
}

/// The rows stacked before `k` never exceed the area, and never go negative.
proof fn lemma_stack_prefix_bound(sections: Seq<Section>, height: int, k: int)
    requires
        0 <= k <= sections.len(),
        height >= 0,
    ensures
        0 <= stacked_upto(sections, height, k) <= height,
{
    let n = sections.len() as int;
    lemma_used_upto_bounds(sections, height, n);
    lemma_used_upto_bounds(sections, height, k);
    lemma_stacked_upto(sections, height, k);
    lemma_assigned_bound(sections, height, k);
    lemma_assigned_bound(sections, height, n);
    lemma_last_filler(sections, height, n);
    lemma_used_plus_shares(sections, height, k);
    match last_filler(sections, height, n) {
        Some(l) => {
            lemma_assigned_le_extra(sections, height, l);
        },
        None => {},
    }
}

/// The plain shares handed out before `k` stay within the extra rows.
proof fn lemma_assigned_le_extra(sections: Seq<Section>, height: int, k: int)
    requires
        0 <= k <= sections.len(),
        height >= 0,
    ensures
        0 <= assigned_upto(sections, height, k) <= height - used_upto(
            sections,
            height,
            sections.len() as int,
        ),
{
    let n = sections.len() as int;
    let t = fill_upto(sections, height, n);
    let e = height - used_upto(sections, height, n);
    lemma_used_upto_bounds(sections, height, n);
    lemma_assigned_bound(sections, height, k);
    lemma_fill_upto_monotone(sections, height, k, n);
    let a = assigned_upto(sections, height, k);
    let f = fill_upto(sections, height, k);
    if t > 0 {
        assert(a <= e) by (nonlinear_arith)
            requires a * t <= e * f, f <= t, t > 0, e >= 0, a >= 0;
    } else {
        lemma_assigned_zero_without_fill(sections, height, k);
    }
}

proof fn lemma_used_plus_shares(sections: Seq<Section>, height: int, k: int)
    requires
        0 <= k <= sections.len(),
        height >= 0,
    ensures
        used_upto(sections, height, k) + assigned_upto(sections, height, k) + last_remainder(
            sections,
            height,
            k,
        ) <= height,
{
    let n = sections.len() as int;
    let t = fill_upto(sections, height, n);
    let e = height - used_upto(sections, height, n);
    lemma_used_upto_bounds(sections, height, n);
    lemma_used_monotone(sections, height, k, n);
    lemma_last_filler(sections, height, n);
    lemma_assigned_bound(sections, height, k);
    lemma_fill_upto_monotone(sections, height, k, n);
    match last_filler(sections, height, n) {
        Some(l) => {
            if l < k {
                lemma_assigned_after_last(sections, height, l, k);
            } else {
                let a = assigned_upto(sections, height, k);
                let f = fill_upto(sections, height, k);
                assert(t > 0) by {
                    lemma_filler_fills(sections, height, l);
                }
                assert(a <= e) by (nonlinear_arith)
                    requires a * t <= e * f, f <= t, t > 0, e >= 0, a >= 0;
            }
        },
        None => {
            lemma_assigned_zero_without_fill(sections, height, k);
        },
    }
}

proof fn lemma_used_monotone(sections: Seq<Section>, height: int, j: int, k: int)
    requires
        0 <= j <= k,
    ensures
        used_upto(sections, height, j) <= used_upto(sections, height, k),
    decreases k - j,
{
    if j < k {
        lemma_used_monotone(sections, height, j, k - 1);
    }
}

/// Without any filling section no plain share is handed out.
proof fn lemma_assigned_zero_without_fill(sections: Seq<Section>, height: int, k: int)
    requires
        0 <= k <= sections.len(),
        fill_upto(sections, height, sections.len() as int) == 0,
    ensures
        assigned_upto(sections, height, k) == 0,
    decreases k,
{
    if k > 0 {
        lemma_assigned_zero_without_fill(sections, height, k - 1);
    }
}

/// An optional index as an integer.
pub open spec fn opt_index(i: Option<usize>) -> Option<int> {
    match i {
        Some(v) => Some(v as int),
        None => None,
    }
}

/// Stack `sections` top to bottom in `area`. Each is included only if its
/// minimum still fits under the sections included before it (so later ones
/// drop out first); the leftover rows are shared by fill weight, rounded
/// down, and the last filling section takes the rounding remainder so the
/// area is used to its last row. One rect per section, `None` for one left
/// out.
pub fn stack(area: Rect, sections: &[Section]) -> (rects: Vec<Option<Rect>>)
    requires
        area.y + area.height <= u16::MAX,
    ensures
        rects@ == spec_stack(area, sections@),
{
    let ghost secs = sections@;
    let ghost hh = area.height as int;
    let n = sections.len();
    let h = area.height as u32;
    let mut used: u32 = 0;
    let mut total: u128 = 0;
    let mut last: Option<usize> = None;
    let mut flags: Vec<bool> = Vec::new();
    let mut i: usize = 0;
    while i < n
        invariant
            secs == sections@,
            n == secs.len(),
            hh == area.height,
            h == area.height,
            i <= n,
            used == used_upto(secs, hh, i as int),
            used <= h,
            total == fill_upto(secs, hh, i as int),
            total <= 65535 * i,
            opt_index(last) == last_filler(secs, hh, i as int),
            flags@.len() == i,
            forall|j: int| 0 <= j < i ==> flags@[j] == stack_includes(secs, hh, j),
        decreases n - i,
    {
        let s = sections[i];
        let fits = used + s.min as u32 <= h;
        if fits {
            used = used + s.min as u32;
            total = total + s.fill as u128;
            if s.fill > 0 {
                last = Some(i);
            }
        }
        flags.push(fits);
        i += 1;
    }
    let extra = h - used;
    proof {
        lemma_assigned_le_extra(secs, hh, n as int);
        lemma_stack_fills_the_area(hh, secs);
        lemma_last_filler(secs, hh, n as int);
    }
    let mut rects: Vec<Option<Rect>> = Vec::new();
    let mut assigned: u32 = 0;
    let mut y: u32 = area.y as u32;
    let mut k: usize = 0;
    while k < n
        invariant
            secs == sections@,
            n == secs.len(),
            hh == area.height,
            area.y + area.height <= u16::MAX,
            extra == hh - used_upto(secs, hh, n as int),
            extra <= 65535,
            total == fill_upto(secs, hh, n as int),
            opt_index(last) == last_filler(secs, hh, n as int),
            flags@.len() == n,
            forall|j: int| 0 <= j < n ==> flags@[j] == stack_includes(secs, hh, j),
            forall|j: int| 0 <= j < n ==> #[trigger] section_within(secs, hh, j),
            k <= n,
            assigned == assigned_upto(secs, hh, k as int),
            y == area.y + stacked_upto(secs, hh, k as int),
            rects@ == spec_stack(area, secs).take(k as int),
        decreases n - k,
    {
        proof {
            lemma_assigned_le_extra(secs, hh, k as int);
            lemma_assigned_le_extra(secs, hh, k + 1);
            lemma_stack_prefix_bound(secs, hh, k as int);
            lemma_last_filler(secs, hh, n as int);
            match last_filler(secs, hh, n as int) {
                Some(l) => {
                    lemma_filler_fills(secs, hh, l);
                },
                None => {},
            }
        }
        let s = sections[k];
        let ghost before = rects@;
        if !flags[k] {
            rects.push(None);
            assert(stacked_upto(secs, hh, k + 1) == stacked_upto(secs, hh, k as int));
            assert(assigned_upto(secs, hh, k + 1) == assigned_upto(secs, hh, k as int) + plain_share(secs, hh, k as int));
        } else {
            let is_last = match last {
                Some(l) => l == k,
                None => false,
            };
            let mut height: u32 = s.min as u32;
            if total > 0 && s.fill > 0 {
                if is_last {
                    height = height + (extra - assigned);
                } else {
                    proof {
                        lemma_fill_upto_nonneg(secs, hh, k as int);
                        assert(fill_upto(secs, hh, k + 1) == fill_upto(secs, hh, k as int) + s.fill);
                        lemma_fill_upto_monotone(secs, hh, k + 1, n as int);
                        let ghost e: int = extra as int;
                        let ghost f: int = s.fill as int;
                        let ghost t: int = total as int;
                        assert(e * f / t <= e) by (nonlinear_arith)
                            requires f <= t, t > 0, e >= 0, f >= 0;
                        assert(extra * s.fill <= 65535 * 65535) by (nonlinear_arith)
                            requires extra <= 65535, s.fill <= 65535;
                    }
                    let share = (extra as u128 * s.fill as u128 / total) as u32;
                    assigned = assigned + share;
                    height = height + share;
                }
            }
            assert(section_within(secs, hh, k as int));
            assert(height == stacked_height(secs, hh, k as int));
            let r = Rect { x: area.x, y: y as u16, width: area.width, height: height as u16 };
            rects.push(Some(r));
            assert(stacked_upto(secs, hh, k + 1) == stacked_upto(secs, hh, k as int) + height);
            y = y + height;
        }
        assert(spec_stack(area, secs).take(k + 1) =~= spec_stack(area, secs).take(k as int).push(
            spec_stack(area, secs)[k as int],
        ));
        k += 1;
    }
    assert(spec_stack(area, secs).take(n as int) =~= spec_stack(area, secs));
    rects
}

/// Widths from which the insights cards form two and three columns.
pub const TWO_COL_MIN_WIDTH: u16 = 56;
pub const THREE_COL_MIN_WIDTH: u16 = 92;

/// Below this height a tab drops boxed cards for compact one-line rows.
pub const SHORT_HEIGHT: u16 = 14;

/// How many card columns the area affords.
pub fn columns_for(area: Rect) -> (cols: usize)
    ensures
        cols == (if area.width >= THREE_COL_MIN_WIDTH {
            3usize
        } else if area.width >= TWO_COL_MIN_WIDTH {
            2usize
        } else {
            1usize
        }),
{
    if area.width >= THREE_COL_MIN_WIDTH {
        3
    } else if area.width >= TWO_COL_MIN_WIDTH {
        2
    } else {
        1
    }
}

/// Whether the area is too short for boxed cards and multi-widget stacks.
pub fn is_short(area: Rect) -> (short: bool)
    ensures
        short == (area.height < SHORT_HEIGHT),
{
    area.height < SHORT_HEIGHT
}

/// A list's regions: the rows rect, how many rows to draw, and — when the
/// list overflows the area — a one-line `+k more` footer under the shown rows
/// with its text.
pub open spec fn spec_list_regions(area: Rect, total: int) -> (Rect, int, Option<(Rect, Seq<char>)>) {
    let capacity = area.height as int;
    if total <= capacity {
        (area, total, None)
    } else {
        let shown = sat_sub(capacity, 1);
        (
            Rect { height: shown as u16, ..area },
            shown,
            Some((Rect { y: (area.y + shown) as u16, height: 1, ..area }, "+"@ + decimal((total - shown) as nat) + " more"@)),
        )
    }
}

/// Split `area` into the rows of a list of `total` items and, when they do
/// not all fit, a `+k more` footer line replacing the last row.
pub fn list_regions(area: Rect, total: usize) -> (regions: (Rect, usize, Option<(Rect, String)>))
    requires
        area.y + area.height <= u16::MAX,
    ensures
        ({
            let (rows, shown, more) = spec_list_regions(area, total as int);
            &&& regions.0 == rows
            &&& regions.1 == shown
            &&& match (regions.2, more) {
                (Some((r, t)), Some((sr, st))) => r == sr && t@ == st,
                (None, None) => true,
                _ => false,
            }
        }),
{
    let capacity = area.height as usize;
    if total <= capacity {
        return (area, total, None);
    }
    let shown = capacity.saturating_sub(1);
    let rows = Rect { height: shown as u16, ..area };
    let footer = Rect { y: area.y + shown as u16, height: 1, ..area };
    let mut text = string_of("+");
    let count = decimal_string((total - shown) as u64);
    text.append(count.as_str());
    text.append(" more");
    (rows, shown, Some((footer, text)))
}

/// A cell of the up ramp: index 0 is blank, 8 full; more eighths saturate.
pub fn ramp_cell(ramp: &[char; 9], eighths: usize) -> (cell: char)
    ensures
        cell == ramp@[if eighths < 8 {
            eighths as int
        } else {
            8
        }],
{
    let index = if eighths < 8 {
        eighths
    } else {
        8
    };
    ramp[index]
}

/// The level of the downward ramp for `eighths`: empty, one-eighth, half or
/// full.
pub open spec fn ramp_down_level(eighths: int) -> int {
    if eighths <= 0 {
        0
    } else if eighths <= 2 {
        1
    } else if eighths <= 6 {
        2
    } else {
        3
    }
}

/// A cell of the downward ramp, for bars hanging below a baseline. Only the
/// universally rendered upper block glyphs are used, so the tip quantises to
/// empty / one-eighth / half / full.
pub fn ramp_cell_down(ramp: &[char; 4], eighths: usize) -> (cell: char)
    ensures
        cell == ramp@[ramp_down_level(eighths as int)],
{
    let capped = if eighths < 8 {
        eighths
    } else {
        8
    };
    let level = if capped == 0 {
        0
    } else if capped <= 2 {
        1
    } else if capped <= 6 {
        2
    } else {
        3
    };
    ramp[level]
}

/// `text` centred in `width` cells with space padding (the extra space on the
/// right); its leading `width` characters when longer.
pub open spec fn spec_center_truncate(text: Seq<char>, width: int) -> Seq<char> {
    if width == 0 {
        Seq::empty()
    } else {
        let trimmed = text.take(min_int(width, text.len() as int));
        let pad = width - display_width(trimmed);
        let left = pad / 2;
        repeat_char(' ', left as nat) + trimmed + repeat_char(' ', (pad - left) as nat)
    }
}

/// Fit `text` into `width` cells, centred with space padding; when it is too
/// long, keep the leading `width` characters with no ellipsis (an initial for
/// a single cell, `Mon`/`2024` when the column is wider). The kept characters
/// must fit the width.
pub fn center_truncate(text: &str, width: usize) -> (centered: String)
    requires
        width == 0 || display_width(text@.take(min_int(width as int, text@.len() as int)))
            <= width,
    ensures
        centered@ == spec_center_truncate(text@, width as int),
{
    if width == 0 {
        return String::new();
    }
    let keep = if width < text.unicode_len() {
        width
    } else {
        text.unicode_len()
    };
    let trimmed = text.substring_char(0, keep);
    assert(trimmed@ =~= text@.take(min_int(width as int, text@.len() as int)));
    let pad = width - str_width(trimmed);
    let left = pad / 2;
    let mut centered = repeat_string(' ', left);
    centered.append(trimmed);
    let right = repeat_string(' ', pad - left);
    centered.append(right.as_str());
    centered
}

/// `center_truncate` where the kept characters fit the width, `None` where
/// they are wider (double-width characters cut at the column).
pub fn center_truncate_checked(text: &str, width: usize) -> (centered: Option<String>)
    ensures
        centered matches Some(s) ==> s@ == spec_center_truncate(text@, width as int),
        centered is Some <==> (width == 0 || display_width(
            text@.take(min_int(width as int, text@.len() as int)),
        ) <= width),
{
    if width == 0 {
        return Some(center_truncate(text, width));
    }
    let keep = if width < text.unicode_len() {
        width
    } else {
        text.unicode_len()
    };
    let trimmed = text.substring_char(0, keep);
    assert(trimmed@ =~= text@.take(min_int(width as int, text@.len() as int)));
    if str_width(trimmed) <= width {
        Some(center_truncate(text, width))
    } else {
        None
    }
}


/// `n` parts sharing the space evenly.
pub open spec fn even_rules(n: nat) -> Seq<SizeRule> {
    Seq::new(n, |_i: int| SizeRule::Fill(1))
}

fn even_rule_list(n: usize) -> (rules: Vec<SizeRule>)
    ensures
        rules@ == even_rules(n as nat),
{
    let mut rules: Vec<SizeRule> = Vec::new();
    let mut i: usize = 0;
    while i < n
        invariant
            i <= n,
            rules@ == even_rules(i as nat),
        decreases n - i,
    {
        rules.push(SizeRule::Fill(1));
        i += 1;
        assert(rules@ =~= even_rules(i as nat));
    }
    rules
}

/// How many cells an even grid of `cols` by `rows` has.
pub open spec fn grid_cell_count(cols: usize, rows: usize) -> int {
    if cols == 0 || rows == 0 { 0 } else { cols * rows }
}

proof fn lemma_part_of_part_within(cell: Rect, row: Rect, area: Rect)
    requires
        part_of(row, area, Axis::Vertical),
        part_of(cell, row, Axis::Horizontal),
    ensures
        within(cell, area),
{
}

/// Cell `c` of row `r` in a row-major grid of `cols` columns.
pub open spec fn cell_at(cells: Seq<Rect>, cols: int, r: int, c: int) -> Rect {
    cells[r * cols + c]
}

/// The grid's cells tile `area` in rows: the rows stacked from the area's
/// top to its bottom, every cell of a row on the row's rows, and each row's
/// cells side by side from the area's left edge to its right edge.
pub open spec fn grid_tiles(area: Rect, cells: Seq<Rect>, cols: int, rows: int) -> bool {
    forall|r: int, c: int|
        0 <= r < rows && 0 <= c < cols ==> {
            let cell = #[trigger] cell_at(cells, cols, r, c);
            &&& cell.y == cell_at(cells, cols, r, 0).y && cell.height == cell_at(cells, cols, r, 0).height
            &&& r == 0 ==> cell.y == area.y
            &&& r > 0 ==> cell.y == cell_at(cells, cols, r - 1, 0).y + cell_at(cells, cols, r - 1, 0).height
            &&& r == rows - 1 ==> cell.y + cell.height == area.spec_bottom()
            &&& c == 0 ==> cell.x == area.x
            &&& c > 0 ==> cell.x == cell_at(cells, cols, r, c - 1).x + cell_at(cells, cols, r, c - 1).width
            &&& c == cols - 1 ==> cell.x + cell.width == area.spec_right()
        }
}

/// The facts about row `r`'s cells, from its row rect.
pub open spec fn row_cells_ok(area: Rect, row: Rect, cells: Seq<Rect>, cols: int, r: int) -> bool {
    forall|c: int|
        0 <= c < cols ==> {
            let cell = #[trigger] cell_at(cells, cols, r, c);
            &&& cell.y == row.y && cell.height == row.height
            &&& within(cell, area)
            &&& c == 0 ==> cell.x == area.x
            &&& c > 0 ==> cell.x == cell_at(cells, cols, r, c - 1).x + cell_at(cells, cols, r, c - 1).width
            &&& c == cols - 1 ==> cell.x + cell.width == area.spec_right()
        }
}

proof fn lemma_grid_index(q: int, c: int, cols: int, r: int)
    requires
        0 <= q < r,
        0 <= c < cols,
    ensures
        0 <= q * cols + c < r * cols,
{
    assert(q * cols >= 0) by (nonlinear_arith)
        requires 0 <= q, 0 < cols;
    assert((q + 1) * cols == q * cols + cols) by (nonlinear_arith);
    assert((q + 1) * cols <= r * cols) by (nonlinear_arith)
        requires q + 1 <= r, 0 < cols;
}

/// Split `area` into a row-major grid of `cols` by `rows` cells, the rows
/// sharing the height and each row's cells its width evenly (as the layout
/// solver shares them; where it puts the edges between cells is left to
/// it). The cells tile the area: rows stacked top to bottom, each row's
/// cells side by side left to right, every cell within the area.
pub fn grid(area: Rect, cols: usize, rows: usize) -> (cells: Vec<Rect>)
    ensures
        cells@.len() == grid_cell_count(cols, rows),
        forall|k: int| 0 <= k < cells@.len() ==> within(#[trigger] cells@[k], area),
        grid_tiles(area, cells@, cols as int, rows as int),
{
    if cols == 0 || rows == 0 {
        return Vec::new();
    }
    let row_rules = even_rule_list(rows);
    let row_rects = split_area(area, Axis::Vertical, Packing::Start, &row_rules);
    proof {
        assert(forall|i: int| 0 <= i < row_rules@.len() ==> #[trigger] row_rules@[i] is Fill);
    }
    let col_rules = even_rule_list(cols);
    let mut cells: Vec<Rect> = Vec::new();
    let mut r: usize = 0;
    while r < rows
        invariant
            r <= rows,
            cols > 0,
            row_rects@.len() == rows,
            forall|i: int| 0 <= i < rows ==> part_of(#[trigger] row_rects@[i], area, Axis::Vertical),
            row_rects@[0].y == area.y,
            forall|i: int| 0 < i < rows ==> (#[trigger] row_rects@[i]).y == row_rects@[i - 1].y + row_rects@[i - 1].height,
            row_rects@[rows - 1].y + row_rects@[rows - 1].height == area.spec_bottom(),
            col_rules@ == even_rules(cols as nat),
            cells@.len() == r * cols,
            forall|k: int| 0 <= k < cells@.len() ==> within(#[trigger] cells@[k], area),
            forall|q: int| 0 <= q < r ==> row_cells_ok(area, #[trigger] row_rects@[q], cells@, cols as int, q),
        decreases rows - r,
    {
        let row = row_rects[r];
        let mut row_cells = split_area(row, Axis::Horizontal, Packing::Start, &col_rules);
        let ghost before = cells@;
        let ghost added = row_cells@;
        proof {
            assert(forall|i: int| 0 <= i < col_rules@.len() ==> #[trigger] col_rules@[i] is Fill);
            assert forall|k: int| 0 <= k < added.len() implies within(#[trigger] added[k], area) by {
                lemma_part_of_part_within(added[k], row, area);
            }
        }
        cells.append(&mut row_cells);
        proof {
            assert(cells@ =~= before + added);
            assert((r + 1) * cols == r * cols + cols) by (nonlinear_arith);
            assert forall|k: int| 0 <= k < cells@.len() implies within(#[trigger] cells@[k], area) by {
                if k >= before.len() {
                    assert(cells@[k] == added[k - before.len()]);
                }
            }
            assert forall|q: int| 0 <= q < r + 1 implies row_cells_ok(area, #[trigger] row_rects@[q], cells@, cols as int, q) by {
                if q < r {
                    assert forall|c: int| 0 <= c < cols implies #[trigger] cell_at(cells@, cols as int, q, c) == cell_at(before, cols as int, q, c) by {
                        lemma_grid_index(q, c, cols as int, r as int);
                    }
                    assert(row_cells_ok(area, row_rects@[q], before, cols as int, q));
                    assert forall|c: int| 0 <= c < cols implies {
                        let cell = #[trigger] cell_at(cells@, cols as int, q, c);
                        &&& cell.y == row_rects@[q].y && cell.height == row_rects@[q].height
                        &&& within(cell, area)
                        &&& c == 0 ==> cell.x == area.x
                        &&& c > 0 ==> cell.x == cell_at(cells@, cols as int, q, c - 1).x + cell_at(cells@, cols as int, q, c - 1).width
                        &&& c == cols - 1 ==> cell.x + cell.width == area.spec_right()
                    } by {
                        assert(cell_at(before, cols as int, q, c) == cell_at(cells@, cols as int, q, c));
                        if c > 0 {
                            assert(cell_at(before, cols as int, q, c - 1) == cell_at(cells@, cols as int, q, c - 1));
                        }
                    }
                } else {
                    assert forall|c: int| 0 <= c < cols implies {
                        let cell = #[trigger] cell_at(cells@, cols as int, q, c);
                        &&& cell.y == row_rects@[q].y && cell.height == row_rects@[q].height
                        &&& within(cell, area)
                        &&& c == 0 ==> cell.x == area.x
                        &&& c > 0 ==> cell.x == cell_at(cells@, cols as int, q, c - 1).x + cell_at(cells@, cols as int, q, c - 1).width
                        &&& c == cols - 1 ==> cell.x + cell.width == area.spec_right()
                    } by {
                        assert(r * cols + c == before.len() + c);
                        assert(cell_at(cells@, cols as int, q, c) == added[c]);
                        assert(part_of(added[c], row, Axis::Horizontal));
                        lemma_part_of_part_within(added[c], row, area);
                        if c > 0 {
                            assert(r * cols + (c - 1) == before.len() + (c - 1));
                            assert(cell_at(cells@, cols as int, q, c - 1) == added[c - 1]);
                        }
                    }
                }
            }
        }
        r += 1;
    }
    proof {
        assert(rows * cols == cols * rows) by (nonlinear_arith);
        assert forall|q: int, c: int| 0 <= q < rows && 0 <= c < cols implies {
            let cell = #[trigger] cell_at(cells@, cols as int, q, c);
            &&& cell.y == cell_at(cells@, cols as int, q, 0).y && cell.height == cell_at(cells@, cols as int, q, 0).height
            &&& q == 0 ==> cell.y == area.y
            &&& q > 0 ==> cell.y == cell_at(cells@, cols as int, q - 1, 0).y + cell_at(cells@, cols as int, q - 1, 0).height
            &&& q == rows - 1 ==> cell.y + cell.height == area.spec_bottom()
            &&& c == 0 ==> cell.x == area.x
            &&& c > 0 ==> cell.x == cell_at(cells@, cols as int, q, c - 1).x + cell_at(cells@, cols as int, q, c - 1).width
            &&& c == cols - 1 ==> cell.x + cell.width == area.spec_right()
        } by {
            assert(row_cells_ok(area, row_rects@[q], cells@, cols as int, q));
            assert(cell_at(cells@, cols as int, q, 0).y == row_rects@[q].y);
            if q > 0 {
                assert(row_cells_ok(area, row_rects@[q - 1], cells@, cols as int, q - 1));
                assert(cell_at(cells@, cols as int, q - 1, 0).y == row_rects@[q - 1].y);
            }
        }
    }
    cells
}


/// The sections of the writing tab, top to bottom: streak cards, entries
/// over time, weekday and hour histograms, word statistics.
pub fn cadence_sections(area: Rect) -> (rects: Vec<Option<Rect>>)
    requires
        area.y + area.height <= u16::MAX,
    ensures
        rects@ == spec_stack(
            area,
            seq![Section { min: 4, fill: 0 }, Section { min: 4, fill: 3 }, Section { min: 6, fill: 2 }, Section { min: 4, fill: 0 }],
        ),
{
    let mut sections: Vec<Section> = Vec::new();
    sections.push(Section::new(4, 0));
    sections.push(Section::new(4, 3));
    sections.push(Section::new(6, 2));
    sections.push(Section::new(4, 0));
    let rects = stack(area, sections.as_slice());
    assert(sections@ =~= seq![Section { min: 4, fill: 0 }, Section { min: 4, fill: 3 }, Section { min: 6, fill: 2 }, Section { min: 4, fill: 0 }]);
    rects
}

/// Where the weekday and hour histograms go, from the two cells of their
/// section's grid: side by side on a wide panel, the halves pulled two
/// columns apart, or stacked; none where the right half would be pushed
/// past the last column.
pub open spec fn spec_weekday_hour_from(area: Rect, first: Rect, second: Rect) -> Option<(Rect, Rect)> {
    if area.width >= TWO_COL_MIN_WIDTH {
        if second.x + 2 > u16::MAX {
            None
        } else {
            Some((
                Rect { width: sat_sub(first.width as int, 2) as u16, ..first },
                Rect { x: (second.x + 2) as u16, width: sat_sub(second.width as int, 2) as u16, ..second },
            ))
        }
    } else {
        Some((first, second))
    }
}

/// The two cells of the weekday and hour section: on a wide panel side by
/// side across the area's rows, the first from its left edge and the second
/// from where the first ends to its right edge; otherwise stacked across its
/// columns, the first from its top and the second from where the first ends
/// to its bottom.
pub open spec fn weekday_hour_cells(area: Rect, first: Rect, second: Rect) -> bool {
    &&& within(first, area) && within(second, area)
    &&& if area.width >= TWO_COL_MIN_WIDTH {
        &&& first.x == area.x && first.y == area.y && first.y + first.height == area.spec_bottom()
        &&& second.x == first.x + first.width && second.y == first.y && second.height == first.height
        &&& second.x + second.width == area.spec_right()
    } else {
        &&& first.y == area.y && first.x == area.x && first.x + first.width == area.spec_right()
        &&& second.y == first.y + first.height && second.x == first.x && second.width == first.width
        &&& second.y + second.height == area.spec_bottom()
    }
}

/// The weekday area (left or top) and the hour area (right or below), from
/// the two cells of the section's grid.
pub fn weekday_hour_areas(area: Rect) -> (areas: Option<(Rect, Rect)>)
    ensures
        exists|first: Rect, second: Rect|
            weekday_hour_cells(area, first, second) && areas == #[trigger] spec_weekday_hour_from(area, first, second),
{
    let cells = if area.width >= TWO_COL_MIN_WIDTH { grid(area, 2, 1) } else { grid(area, 1, 2) };
    let first = cells[0];
    let second = cells[1];
    let areas = if area.width >= TWO_COL_MIN_WIDTH {
        if second.x > u16::MAX - 2 {
            None
        } else {
            Some((Rect { width: first.width.saturating_sub(2), ..first }, Rect { x: second.x + 2, width: second.width.saturating_sub(2), ..second }))
        }
    } else {
        Some((first, second))
    };
    proof {
        if area.width >= TWO_COL_MIN_WIDTH {
            assert(cell_at(cells@, 2, 0, 0) == first);
            assert(cell_at(cells@, 2, 0, 1) == second);
        } else {
            assert(cell_at(cells@, 1, 0, 0) == first);
            assert(cell_at(cells@, 1, 1, 0) == second);
        }
    }
    assert(weekday_hour_cells(area, first, second));
    assert(areas == spec_weekday_hour_from(area, first, second));
    areas
}

/// A histogram's bars and, on its bottom row, its axis caption.
pub open spec fn spec_histogram_rows(area: Rect) -> Option<(Rect, Rect)> {
    if area.height == 0 {
        None
    } else {
        Some((
            Rect { height: (area.height - 1) as u16, ..area },
            Rect { y: (area.y + area.height - 1) as u16, height: 1, ..area },
        ))
    }
}

pub fn histogram_rows(area: Rect) -> (rows: Option<(Rect, Rect)>)
    requires
        area.y + area.height <= u16::MAX,
    ensures
        rows == spec_histogram_rows(area),
{
    if area.height == 0 {
        None
    } else {
        Some((Rect { height: area.height - 1, ..area }, Rect { y: area.y + area.height - 1, height: 1, ..area }))
    }
}

/// Where an insights tab's content goes inside the panel's padded content
/// area: below a one-row top margin, or, for a tab that opens with a
/// heading (which brings its own blank row), from the top; nothing when the
/// margin leaves no room.
pub open spec fn spec_insights_content(padded: Rect, leads_with_heading: bool) -> Option<Rect> {
    let below = Rect { y: (padded.y + 1) as u16, height: sat_sub(padded.height as int, 1) as u16, ..padded };
    if below.height == 0 {
        None
    } else if leads_with_heading {
        Some(padded)
    } else {
        Some(below)
    }
}

pub fn insights_content(padded: Rect, leads_with_heading: bool) -> (content: Option<Rect>)
    requires
        padded.y < u16::MAX,
    ensures
        content == spec_insights_content(padded, leads_with_heading),
{
    let below = Rect { y: padded.y + 1, height: padded.height.saturating_sub(1), ..padded };
    if below.height == 0 {
        None
    } else if leads_with_heading {
        Some(padded)
    } else {
        Some(below)
    }
}

/// The footnote in the insights panel's bottom border: the scope an
/// analytic tab shows, then its rolling window where it has one; none on
/// the overview, whose top card names the scope.
pub open spec fn spec_insights_footnote(
    overview: bool,
    scope: Seq<char>,
    separator: Seq<char>,
    timeframe: Option<Seq<char>>,
) -> Option<Seq<char>> {
    if overview {
        None
    } else {
        Some(" "@ + scope + match timeframe {
            Some(t) => " "@ + separator + " "@ + t,
            None => seq![],
        } + " "@)
    }
}

/// An optional text as its characters.
pub open spec fn text_view(text: Option<&str>) -> Option<Seq<char>> {
    match text {
        Some(t) => Some(t@),
        None => None,
    }
}

pub fn insights_footnote(overview: bool, scope: &str, separator: &str, timeframe: Option<&str>) -> (note: Option<String>)
    ensures
        note matches Some(n) ==> spec_insights_footnote(overview, scope@, separator@, text_view(timeframe)) == Some(n@),
        note is None <==> overview,
{
    if overview {
        return None;
    }
    let mut text = String::new();
    text.append(" ");
    text.append(scope);
    match timeframe {
        Some(t) => {
            text.append(" ");
            text.append(separator);
            text.append(" ");
            text.append(t);
        },
        None => {},
    }
    text.append(" ");
    proof {
        reveal_strlit(" ");
        assert(text@ =~= spec_insights_footnote(overview, scope@, separator@, text_view(timeframe)).unwrap());
    }
    Some(text)
}

} // verus!
