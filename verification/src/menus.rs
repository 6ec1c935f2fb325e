//! Balancing help sections across table columns: cut the sections into
//! contiguous column groups so the tallest column is as short as possible.
use vstd::prelude::*;
use crate::geometry::sat_sub;
use crate::hints::seq_sum;
use crate::insights::{
    ints, lemma_prefix_monotone, lemma_prefix_step, lemma_seq_sum_nonneg, lemma_subrange_sum,
};

verus! {

/// Rows of a column holding sections `start..end`: their rows plus a blank
/// row between each two.
pub open spec fn col_height(sizes: Seq<int>, start: int, end: int) -> int {
    seq_sum(sizes.subrange(start, end)) + sat_sub(end - start, 1)
}

/// The tallest of the first `i` columns cut at `bounds`.
pub open spec fn span_upto(sizes: Seq<int>, bounds: Seq<usize>, i: int) -> int
    decreases i,
{
    if i <= 0 {
        0
    } else {
        let start = if i >= 2 {
            bounds[i - 2] as int
        } else {
            0
        };
        let prev = span_upto(sizes, bounds, i - 1);
        let here = col_height(sizes, start, bounds[i - 1] as int);
        if prev >= here {
            prev
        } else {
            here
        }
    }
}

/// The tallest column produced by cutting the sections at `bounds`.
pub open spec fn spec_column_span(sizes: Seq<int>, bounds: Seq<usize>) -> int {
    span_upto(sizes, bounds, bounds.len() as int)
}

/// Column end-boundaries that never go backwards and stay within the sections.
pub open spec fn bounds_ordered(bounds: Seq<usize>, n: int) -> bool {
    &&& forall|i: int| 0 <= i < bounds.len() ==> #[trigger] bounds[i] <= n
    &&& forall|i: int| 0 < i < bounds.len() ==> bounds[i - 1] <= #[trigger] bounds[i]
}

/// The section sizes, and the blank rows between them, fit `usize`.
pub open spec fn sizes_fit(sizes: Seq<usize>) -> bool {
    seq_sum(ints(sizes)) + sizes.len() <= usize::MAX
}

proof fn lemma_col_height_bounded(sizes: Seq<usize>, start: int, end: int)
    requires
        0 <= start <= end <= sizes.len(),
    ensures
        0 <= col_height(ints(sizes), start, end) <= seq_sum(ints(sizes)) + sizes.len(),
{
    let s = ints(sizes);
    assert(forall|k: int| 0 <= k < s.len() ==> #[trigger] s[k] >= 0);
    lemma_subrange_sum(s, start, end);
    lemma_prefix_monotone(s, end, s.len() as int);
    lemma_prefix_monotone(s, 0, start);
    lemma_prefix_monotone(s, start, end);
    assert(s.take(0) =~= Seq::<int>::empty());
    assert(seq_sum(Seq::<int>::empty()) == 0);
    assert(s.take(s.len() as int) =~= s);
}

/// The rows of sections `start..end` stacked in one column.
fn column_height(sizes: &[usize], start: usize, end: usize) -> (height: usize)
    requires
        start <= end <= sizes@.len(),
        sizes_fit(sizes@),
    ensures
        height == col_height(ints(sizes@), start as int, end as int),
{
    let ghost s = ints(sizes@);
    proof {
        assert(forall|k: int| 0 <= k < s.len() ==> #[trigger] s[k] >= 0);
        assert(s.take(s.len() as int) =~= s);
    }
    let mut sum = 0usize;
    let mut k = start;
    while k < end
        invariant
            start <= k <= end <= sizes@.len(),
            s == ints(sizes@),
            sizes_fit(sizes@),
            forall|i: int| 0 <= i < s.len() ==> #[trigger] s[i] >= 0,
            s.take(s.len() as int) == s,
            sum == seq_sum(s.take(k as int)) - seq_sum(s.take(start as int)),
        decreases end - k,
    {
        proof {
            lemma_prefix_step(s, k as int);
            lemma_prefix_monotone(s, k + 1, s.len() as int);
            lemma_prefix_monotone(s, 0, start as int);
            assert(s.take(0) =~= Seq::<int>::empty());
        }
        sum += sizes[k];
        k += 1;
    }
    proof {
        lemma_subrange_sum(s, start as int, end as int);
        lemma_col_height_bounded(sizes@, start as int, end as int);
    }
    sum + (end - start).saturating_sub(1)
}

/// The tallest column produced by a set of end-boundaries, counting a blank
/// row between sections stacked in the same column.
pub fn column_span(sizes: &[usize], bounds: &[usize]) -> (tallest: usize)
    requires
        bounds_ordered(bounds@, sizes@.len() as int),
        sizes_fit(sizes@),
    ensures
        tallest == spec_column_span(ints(sizes@), bounds@),
{
    let mut start = 0usize;
    let mut tallest = 0usize;
    let mut i = 0usize;
    while i < bounds.len()
        invariant
            i <= bounds@.len(),
            bounds_ordered(bounds@, sizes@.len() as int),
            sizes_fit(sizes@),
            start == (if i == 0 {
                0
            } else {
                bounds@[i - 1]
            }),
            tallest == span_upto(ints(sizes@), bounds@, i as int),
        decreases bounds@.len() - i,
    {
        let end = bounds[i];
        let height = column_height(sizes, start, end);
        if height > tallest {
            tallest = height;
        }
        start = end;
        i += 1;
    }
    tallest
}

/// A way to cut `n` sections into `cols` non-empty contiguous columns: the
/// strictly increasing end-boundaries, the last one `n`.
pub open spec fn valid_split(bounds: Seq<usize>, n: int, cols: int) -> bool {
    &&& cols >= 1
    &&& bounds.len() == cols
    &&& bounds[0] >= 1
    &&& bounds[cols - 1] == n
    &&& forall|i: int| 0 < i < bounds.len() ==> bounds[i - 1] < #[trigger] bounds[i]
}

/// A started split: strictly increasing boundaries ending at `start`.
pub open spec fn valid_prefix(prefix: Seq<usize>, start: int) -> bool {
    &&& prefix.len() == 0 ==> start == 0
    &&& prefix.len() > 0 ==> prefix[0] >= 1 && prefix[prefix.len() - 1] == start
    &&& forall|i: int| 0 < i < prefix.len() ==> prefix[i - 1] < #[trigger] prefix[i]
}

/// The best split found so far: its span and boundaries, as kept by the search.
pub open spec fn best_ok(
    sizes: Seq<usize>,
    best: Option<(usize, Vec<usize>)>,
    cols: int,
) -> bool {
    best matches Some((span, bounds)) ==> valid_split(bounds@, sizes.len() as int, cols) && span
        == spec_column_span(ints(sizes), bounds@)
}

/// The span of the best split found so far (zero before any).
pub open spec fn best_span(best: Option<(usize, Vec<usize>)>) -> int {
    match best {
        Some((span, _)) => span as int,
        None => 0,
    }
}

proof fn lemma_valid_split_room(bounds: Seq<usize>, n: int, cols: int, i: int)
    requires
        valid_split(bounds, n, cols),
        0 <= i < cols,
    ensures
        bounds[i] + (cols - 1 - i) <= n,
    decreases cols - 1 - i,
{
    if i < cols - 1 {
        lemma_valid_split_room(bounds, n, cols, i + 1);
    }
}

proof fn lemma_valid_split_ordered(bounds: Seq<usize>, n: int, cols: int)
    requires
        valid_split(bounds, n, cols),
    ensures
        bounds_ordered(bounds, n),
{
    assert forall|i: int| 0 <= i < bounds.len() implies #[trigger] bounds[i] <= n by {
        lemma_valid_split_room(bounds, n, cols, i);
    }
}

fn copy_bounds(bounds: &Vec<usize>) -> (copy: Vec<usize>)
    ensures
        copy@ == bounds@,
{
    let mut copy: Vec<usize> = Vec::new();
    let mut i = 0usize;
    while i < bounds.len()
        invariant
            i <= bounds@.len(),
            copy@ == bounds@.take(i as int),
        decreases bounds@.len() - i,
    {
        copy.push(bounds[i]);
        i += 1;
        assert(copy@ =~= bounds@.take(i as int));
    }
    assert(bounds@.take(bounds@.len() as int) =~= bounds@);
    copy
}

/// Every split that starts with `prefix` and puts its next boundary below
/// `bound` is no better than `best`.
#[verifier::opaque]
pub open spec fn beats_splits_below(
    sizes: Seq<usize>,
    best: Option<(usize, Vec<usize>)>,
    prefix: Seq<usize>,
    cols: int,
    bound: int,
) -> bool {
    forall|s: Seq<usize>|
        valid_split(s, sizes.len() as int, prefix.len() + cols) && s.take(prefix.len() as int)
            == prefix && s[prefix.len() as int] < bound ==> best_span(best) <= spec_column_span(
            ints(sizes),
            s,
        )
}

/// Every split that starts with `prefix` is no better than `best`.
#[verifier::opaque]
pub open spec fn beats_splits(
    sizes: Seq<usize>,
    best: Option<(usize, Vec<usize>)>,
    prefix: Seq<usize>,
    cols: int,
) -> bool {
    forall|s: Seq<usize>|
        valid_split(s, sizes.len() as int, prefix.len() + cols) && s.take(prefix.len() as int)
            == prefix ==> best_span(best) <= spec_column_span(ints(sizes), s)
}

proof fn lemma_beats_below_start(
    sizes: Seq<usize>,
    best: Option<(usize, Vec<usize>)>,
    prefix: Seq<usize>,
    cols: int,
    start: int,
)
    requires
        cols >= 1,
        valid_prefix(prefix, start),
    ensures
        beats_splits_below(sizes, best, prefix, cols, start + 1),
{
    reveal(beats_splits_below);
    assert forall|s: Seq<usize>|
        valid_split(s, sizes.len() as int, prefix.len() + cols) && s.take(prefix.len() as int)
            == prefix && s[prefix.len() as int] < start + 1 implies best_span(best)
        <= spec_column_span(ints(sizes), s) by {
        let l = prefix.len() as int;
        if l > 0 {
            assert(s.take(l)[l - 1] == s[l - 1]);
            assert(s[l - 1] == prefix[l - 1]);
            assert(s[l - 1] < s[l]);
        }
    }
}

proof fn lemma_beats_below_step(
    sizes: Seq<usize>,
    before: Option<(usize, Vec<usize>)>,
    after: Option<(usize, Vec<usize>)>,
    prefix: Seq<usize>,
    cols: int,
    start: int,
    end: usize,
)
    requires
        cols >= 2,
        valid_prefix(prefix, start),
        before is None ==> end == start + 1,
        beats_splits_below(sizes, before, prefix, cols, end as int),
        before is Some ==> best_span(after) <= best_span(before),
        beats_splits(sizes, after, prefix.push(end), cols - 1),
    ensures
        beats_splits_below(sizes, after, prefix, cols, end + 1),
{
    reveal(beats_splits_below);
    reveal(beats_splits);
    let l = prefix.len() as int;
    assert forall|s: Seq<usize>|
        valid_split(s, sizes.len() as int, l + cols) && s.take(l) == prefix && s[l] < end + 1
            implies best_span(after) <= spec_column_span(ints(sizes), s) by {
        if s[l] == end {
            assert(s.take(l + 1) =~= prefix.push(end));
            assert(prefix.push(end).len() + (cols - 1) == l + cols);
        } else if l > 0 {
            assert(s.take(l)[l - 1] == s[l - 1]);
            assert(s[l - 1] == prefix[l - 1]);
            assert(s[l - 1] < s[l]);
        }
    }
}

proof fn lemma_beats_all(
    sizes: Seq<usize>,
    best: Option<(usize, Vec<usize>)>,
    prefix: Seq<usize>,
    cols: int,
    bound: int,
)
    requires
        cols >= 1,
        bound == sizes.len() - (cols - 1) + 1,
        beats_splits_below(sizes, best, prefix, cols, bound),
    ensures
        beats_splits(sizes, best, prefix, cols),
{
    reveal(beats_splits_below);
    reveal(beats_splits);
    let l = prefix.len() as int;
    assert forall|s: Seq<usize>|
        valid_split(s, sizes.len() as int, l + cols) && s.take(l) == prefix implies best_span(best)
        <= spec_column_span(ints(sizes), s) by {
        lemma_valid_split_room(s, sizes.len() as int, l + cols, l);
    }
}

/// Close a split with its last boundary `n` and keep it if it beats `best`.
fn finish_split(sizes: &[usize], current: &mut Vec<usize>, best: &mut Option<(usize, Vec<usize>)>)
    requires
        sizes_fit(sizes@),
        sizes@.len() >= 1,
        valid_prefix(old(current)@, old(current)@.last() as int) || old(current)@.len() == 0,
        old(current)@.len() > 0 ==> old(current)@.last() < sizes@.len(),
        best_ok(sizes@, *old(best), old(current)@.len() + 1int),
    ensures
        final(current)@ == old(current)@,
        best_ok(sizes@, *final(best), old(current)@.len() + 1int),
        *final(best) is Some,
        *old(best) is Some ==> best_span(*final(best)) <= best_span(*old(best)),
        beats_splits(sizes@, *final(best), old(current)@, 1),
{
    let n = sizes.len();
    let ghost prefix = current@;
    let ghost len0 = prefix.len() as int;
    current.push(n);
    proof {
        assert(valid_split(current@, n as int, len0 + 1));
        lemma_valid_split_ordered(current@, n as int, len0 + 1);
    }
    let span = column_span(sizes, current.as_slice());
    let improve = match best {
        Some((best_span, _)) => span < *best_span,
        None => true,
    };
    if improve {
        *best = Some((span, copy_bounds(current)));
    }
    proof {
        reveal(beats_splits);
        assert forall|s: Seq<usize>|
            valid_split(s, n as int, len0 + 1) && s.take(len0) == prefix implies best_span(*best)
            <= spec_column_span(ints(sizes@), s) by {
            assert(s =~= prefix.push(n));
        }
    }
    current.pop();
    assert(current@ =~= prefix);
}

/// Recurse over every way to place the remaining column boundaries after
/// `start`, keeping the split whose tallest column is smallest. Each column
/// takes at least one section, so a boundary always leaves room for the
/// columns still to come.
pub fn search_splits(
    sizes: &[usize],
    start: usize,
    cols: usize,
    current: &mut Vec<usize>,
    best: &mut Option<(usize, Vec<usize>)>,
)
    requires
        sizes_fit(sizes@),
        cols >= 1,
        start + cols <= sizes@.len(),
        valid_prefix(old(current)@, start as int),
        best_ok(sizes@, *old(best), old(current)@.len() + cols),
    ensures
        final(current)@ == old(current)@,
        best_ok(sizes@, *final(best), old(current)@.len() + cols),
        *final(best) is Some,
        *old(best) is Some ==> best_span(*final(best)) <= best_span(*old(best)),
        beats_splits(sizes@, *final(best), old(current)@, cols as int),
    decreases cols,
{
    let n = sizes.len();
    let ghost len0 = current@.len() as int;
    let ghost prefix = current@;
    let ghost best0 = *best;
    if cols == 1 {
        finish_split(sizes, current, best);
        return;
    }
    let mut end = start + 1;
    proof {
        lemma_beats_below_start(sizes@, *best, prefix, cols as int, start as int);
    }
    while end <= n - (cols - 1)
        invariant
            n == sizes@.len(),
            sizes_fit(sizes@),
            cols >= 2,
            start + cols <= n,
            start + 1 <= end <= n - (cols - 1) + 1,
            current@ == prefix,
            len0 == prefix.len(),
            valid_prefix(prefix, start as int),
            best_ok(sizes@, *best, len0 + cols),
            best0 is Some ==> *best is Some && best_span(*best) <= best_span(best0),
            end > start + 1 ==> *best is Some,
            beats_splits_below(sizes@, *best, prefix, cols as int, end as int),
        decreases n - (cols - 1) + 1 - end,
    {
        current.push(end);
        let ghost before = *best;
        proof {
            assert(valid_prefix(current@, end as int));
        }
        search_splits(sizes, end, cols - 1, current, best);
        proof {
            lemma_beats_below_step(sizes@, before, *best, prefix, cols as int, start as int, end);
        }
        current.pop();
        assert(current@ =~= prefix);
        end += 1;
    }
    proof {
        lemma_beats_all(sizes@, *best, prefix, cols as int, end as int);
    }
}

/// How many columns `n` sections are cut into when `ncols` are asked for:
/// at least one, at most one per section.
pub open spec fn split_columns(n: int, ncols: int) -> int {
    if ncols < 1 { 1 } else if ncols > n { n } else { ncols }
}

/// End-boundaries of the columns (the last always `sizes.len()`) that minimize
/// the tallest column when the sections are cut into contiguous groups; more
/// columns than sections are clamped to one section each.
pub fn balanced_splits(sizes: &[usize], ncols: usize) -> (bounds: Vec<usize>)
    requires
        sizes_fit(sizes@),
    ensures
        sizes@.len() == 0 ==> bounds@ == seq![0usize],
        sizes@.len() > 0 ==> valid_split(bounds@, sizes@.len() as int, split_columns(sizes@.len() as int, ncols as int)),
        sizes@.len() > 0 ==> forall|s: Seq<usize>|
            #[trigger] valid_split(s, sizes@.len() as int, split_columns(sizes@.len() as int, ncols as int))
                ==> spec_column_span(ints(sizes@), bounds@) <= spec_column_span(ints(sizes@), s),
{
    let n = sizes.len();
    if n == 0 {
        let mut bounds = Vec::new();
        bounds.push(0);
        assert(bounds@ =~= seq![0usize]);
        return bounds;
    }
    let ncols = if ncols < n {
        ncols
    } else {
        n
    };
    if ncols <= 1 {
        let mut bounds = Vec::new();
        bounds.push(n);
        proof {
            assert forall|s: Seq<usize>| valid_split(s, n as int, 1) implies spec_column_span(
                ints(sizes@),
                bounds@,
            ) <= spec_column_span(ints(sizes@), s) by {
                assert(s =~= bounds@);
            }
        }
        return bounds;
    }
    let mut best: Option<(usize, Vec<usize>)> = None;
    let mut current: Vec<usize> = Vec::new();
    search_splits(sizes, 0, ncols, &mut current, &mut best);
    proof {
        reveal(beats_splits);
        assert forall|s: Seq<usize>| valid_split(s, n as int, ncols as int) implies s.take(0)
            == current@ by {
            assert(s.take(0) =~= Seq::<usize>::empty());
        }
    }
    match best {
        Some((_, bounds)) => bounds,
        None => {
            let mut bounds = Vec::new();
            bounds.push(n);
            bounds
        },
    }
}

} // verus!

