//! Scroll offsets and scrollbar geometry shared by every scrollable panel.
use vstd::prelude::*;
use crate::chrome::{flat_chrome, ChromeStyle};
use crate::geometry::{Rect, sat_add_u16, sat_sub};

verus! {

/// `a * b`, capped at `usize::MAX`.
pub open spec fn sat_mul_usize(a: int, b: int) -> int {
    if a * b > usize::MAX { usize::MAX as int } else { a * b }
}

/// The largest scroll offset that still fills a `height`-row viewport with
/// `line_count` lines (zero when everything fits).
pub open spec fn max_scroll_of(line_count: int, height: int) -> int {
    sat_sub(line_count, height)
}

pub open spec fn min_int(a: int, b: int) -> int {
    if a <= b { a } else { b }
}

/// The viewer scroll that `viewer_scroll` settles on: the request, clamped so
/// the last line can still reach the bottom, with the limit saturating at
/// `u16::MAX`.
pub open spec fn spec_viewer_scroll(requested: int, line_count: int, height: int) -> int {
    min_int(requested, min_int(max_scroll_of(line_count, height), u16::MAX as int))
}

/// The scrollbar thumb position for a scroll offset: `scroll` mapped onto
/// `0..=line_count - 1` in proportion to the scroll range.
pub open spec fn spec_scrollbar_position(scroll: int, line_count: int, height: int) -> int {
    let max_scroll = max_scroll_of(line_count, height);
    if max_scroll == 0 {
        0
    } else {
        sat_mul_usize(scroll, line_count - 1) / max_scroll
    }
}

/// Clamp a requested viewer scroll so the last line can still reach the bottom
/// of the viewport; the limit saturates at `u16::MAX`.
pub fn viewer_scroll(requested: u16, line_count: usize, height: u16) -> (scroll: u16)
    ensures
        scroll == spec_viewer_scroll(requested as int, line_count as int, height as int),
{
    let max_scroll_full = line_count.saturating_sub(height as usize);
    let max_scroll: u16 = if max_scroll_full > u16::MAX as usize {
        u16::MAX
    } else {
        max_scroll_full as u16
    };
    if requested < max_scroll { requested } else { max_scroll }
}

/// `a * b` saturating at `usize::MAX`.
fn saturating_mul_usize(a: usize, b: usize) -> (r: usize)
    ensures
        r == sat_mul_usize(a as int, b as int),
{
    if b == 0 {
        0
    } else if a > usize::MAX / b {
        proof {
            assert(a * b > usize::MAX) by (nonlinear_arith)
                requires a > usize::MAX / b, b > 0;
        }
        usize::MAX
    } else {
        proof {
            assert(a * b <= usize::MAX) by (nonlinear_arith)
                requires a <= usize::MAX / b, b > 0;
        }
        a * b
    }
}

/// The scrollbar position for `scroll`: proportional over `0..=line_count - 1`,
/// so the viewer's bottom lands on the track's end.
pub fn scrollbar_position(scroll: usize, line_count: usize, height: u16) -> (position: usize)
    ensures
        position == spec_scrollbar_position(scroll as int, line_count as int, height as int),
{
    let max_scroll = line_count.saturating_sub(height as usize);
    if max_scroll == 0 {
        return 0;
    }
    saturating_mul_usize(scroll, line_count - 1) / max_scroll
}

/// The columns a scrollbar track sits in from a panel's right edge: the
/// last column on bordered chrome; flat chrome insets it by one.
pub open spec fn scrollbar_inset(chrome: ChromeStyle) -> int {
    if chrome == ChromeStyle::Flat { 2 } else { 1 }
}

/// The interactive vertical-scrollbar track for a panel `area`: the panel's
/// rightmost column on bordered chrome, the one before it on flat chrome,
/// inset by one row top and bottom. A zero-height rect means there is no
/// draggable track.
pub fn scrollbar_bar_rect(area: Rect, chrome: ChromeStyle) -> (bar: Rect)
    ensures
        bar.x == sat_add_u16(area.x as int, sat_sub(area.width as int, scrollbar_inset(chrome))),
        bar.y == sat_add_u16(area.y as int, 1),
        bar.width == 1,
        bar.height == sat_sub(area.height as int, 2),
{
    let inset: u16 = if flat_chrome(chrome) { 2 } else { 1 };
    Rect {
        x: area.x.saturating_add(area.width.saturating_sub(inset)),
        y: area.y.saturating_add(1),
        width: 1,
        height: area.height.saturating_sub(2),
    }
}

/// The clicked row's offset into the track `bar_top..=bar_top + bar_height - 1`
/// (the bottom saturating at `u16::MAX`), after clamping the row into it.
pub open spec fn bar_relative_row(row: int, bar_top: int, bar_height: int) -> int {
    let bottom = sat_add_u16(bar_top, bar_height - 1);
    if row < bar_top {
        0
    } else if row > bottom {
        bottom - bar_top
    } else {
        row - bar_top
    }
}

/// The scroll offset a press on track row `row` maps to: rounded to nearest
/// over the track's span, zero when there is nothing to scroll or no track.
pub open spec fn spec_scroll_from_bar_row(
    row: int,
    bar_top: int,
    bar_height: int,
    max_scroll: int,
) -> int {
    if max_scroll == 0 || bar_height <= 1 {
        0
    } else {
        let span = bar_height - 1;
        (bar_relative_row(row, bar_top, bar_height) * max_scroll + span / 2) / span
    }
}

/// Whether mapping a press to a scroll offset stays within `usize`.
pub open spec fn scroll_from_bar_row_fits(
    row: int,
    bar_top: int,
    bar_height: int,
    max_scroll: int,
) -> bool {
    max_scroll == 0 || bar_height <= 1 || bar_relative_row(row, bar_top, bar_height) * max_scroll
        + (bar_height - 1) / 2 <= usize::MAX
}

/// Map a mouse row on a scrollbar track to a scroll offset — the inverse of
/// `scrollbar_position`. The row is clamped into the track, so pressing at the
/// very top yields `0` and the very bottom yields `max_scroll`.
pub fn scroll_from_bar_row(row: u16, bar_top: u16, bar_height: u16, max_scroll: usize) -> (scroll:
    usize)
    requires
        scroll_from_bar_row_fits(row as int, bar_top as int, bar_height as int, max_scroll as int),
    ensures
        scroll == spec_scroll_from_bar_row(
            row as int,
            bar_top as int,
            bar_height as int,
            max_scroll as int,
        ),
{
    if max_scroll == 0 || bar_height <= 1 {
        return 0;
    }
    let span = (bar_height - 1) as usize;
    let bottom = bar_top.saturating_add(bar_height - 1);
    let clamped = if row < bar_top {
        bar_top
    } else if row > bottom {
        bottom
    } else {
        row
    };
    let rel = clamped.saturating_sub(bar_top) as usize;
    proof {
        assert(rel == bar_relative_row(row as int, bar_top as int, bar_height as int));
        assert(rel * max_scroll >= 0) by (nonlinear_arith)
            requires rel >= 0, max_scroll >= 0;
    }
    (rel * max_scroll + span / 2) / span
}

/// How many rows a thumb of `thumb_len` can travel along a track of
/// `track_len` (zero when it fills the track).
pub open spec fn thumb_travel(track_len: int, thumb_len: int) -> int {
    sat_sub(track_len, thumb_len)
}

/// The dragged thumb's offset into its travel `track_top..=track_top + travel`
/// (the end saturating at `u16::MAX`), after clamping the thumb's top into it.
pub open spec fn thumb_relative_row(thumb_top: int, track_top: int, travel: int) -> int {
    let last = sat_add_u16(track_top, travel);
    if thumb_top < track_top {
        0
    } else if thumb_top > last {
        last - track_top
    } else {
        thumb_top - track_top
    }
}

/// The scroll offset a thumb dragged to `thumb_top` maps to: its place along
/// the travel, scaled onto `0..=max_scroll` and rounded to nearest; zero when
/// there is nothing to scroll or the thumb cannot move.
pub open spec fn spec_scroll_from_thumb_top(
    thumb_top: int,
    track_top: int,
    track_len: int,
    thumb_len: int,
    max_scroll: int,
) -> int {
    let travel = thumb_travel(track_len, thumb_len);
    if max_scroll == 0 || travel == 0 {
        0
    } else {
        (thumb_relative_row(thumb_top, track_top, travel) * max_scroll + travel / 2) / travel
    }
}

/// Whether mapping a thumb position to a scroll offset stays within `usize`.
pub open spec fn scroll_from_thumb_top_fits(
    thumb_top: int,
    track_top: int,
    track_len: int,
    thumb_len: int,
    max_scroll: int,
) -> bool {
    let travel = thumb_travel(track_len, thumb_len);
    max_scroll == 0 || travel == 0 || thumb_relative_row(thumb_top, track_top, travel) * max_scroll
        + travel / 2 <= usize::MAX
}

/// Map a dragged thumb's top row to a scroll offset. The thumb travels
/// `track_len - thumb_len` rows below `track_top`; the top of its travel maps
/// to `0`, the bottom to `max_scroll`, and rows past either end clamp.
pub fn scroll_from_thumb_top(
    thumb_top: u16,
    track_top: u16,
    track_len: u16,
    thumb_len: u16,
    max_scroll: usize,
) -> (scroll: usize)
    requires
        scroll_from_thumb_top_fits(
            thumb_top as int,
            track_top as int,
            track_len as int,
            thumb_len as int,
            max_scroll as int,
        ),
    ensures
        scroll == spec_scroll_from_thumb_top(
            thumb_top as int,
            track_top as int,
            track_len as int,
            thumb_len as int,
            max_scroll as int,
        ),
        scroll <= max_scroll,
{
    let travel = track_len.saturating_sub(thumb_len);
    if max_scroll == 0 || travel == 0 {
        return 0;
    }
    let last = track_top.saturating_add(travel);
    let clamped = if thumb_top < track_top {
        track_top
    } else if thumb_top > last {
        last
    } else {
        thumb_top
    };
    let rel = (clamped - track_top) as usize;
    let span = travel as usize;
    proof {
        assert(rel == thumb_relative_row(thumb_top as int, track_top as int, travel as int));
        assert(rel <= span);
        assert(rel * max_scroll <= span * max_scroll) by (nonlinear_arith)
            requires rel <= span, max_scroll >= 0;
        let ghost num: int = rel * max_scroll + span / 2;
        let ghost den: int = span as int;
        assert(num / den <= max_scroll) by (nonlinear_arith)
            requires rel * max_scroll <= den * max_scroll, den > 0, max_scroll >= 0,
                num == rel * max_scroll + den / 2, rel * max_scroll >= 0;
    }
    (rel * max_scroll + span / 2) / span
}

/// The thumb-drag mapping is monotone (a lower thumb never scrolls less) and
/// pins its ends: the top of the travel scrolls to `0` and the bottom of the
/// travel to `max_scroll`.
pub proof fn lemma_thumb_scroll_monotone_and_exact_at_ends(
    a: int,
    b: int,
    track_top: u16,
    track_len: u16,
    thumb_len: u16,
    max_scroll: usize,
)
    requires
        a <= b,
        thumb_travel(track_len as int, thumb_len as int) > 0,
        track_top + thumb_travel(track_len as int, thumb_len as int) <= u16::MAX,
    ensures
        spec_scroll_from_thumb_top(a, track_top as int, track_len as int, thumb_len as int, max_scroll as int)
            <= spec_scroll_from_thumb_top(b, track_top as int, track_len as int, thumb_len as int, max_scroll as int),
        spec_scroll_from_thumb_top(track_top as int, track_top as int, track_len as int, thumb_len as int, max_scroll as int) == 0,
        spec_scroll_from_thumb_top(
            track_top + thumb_travel(track_len as int, thumb_len as int),
            track_top as int,
            track_len as int,
            thumb_len as int,
            max_scroll as int,
        ) == max_scroll,
{
    let travel = thumb_travel(track_len as int, thumb_len as int);
    let ra = thumb_relative_row(a, track_top as int, travel);
    let rb = thumb_relative_row(b, track_top as int, travel);
    let m = max_scroll as int;
    assert(ra <= rb);
    assert(ra * m <= rb * m) by (nonlinear_arith)
        requires ra <= rb, m >= 0;
    assert((ra * m + travel / 2) / travel <= (rb * m + travel / 2) / travel) by (nonlinear_arith)
        requires ra * m <= rb * m, travel > 0;
    assert((travel * m + travel / 2) / travel == m) by (nonlinear_arith)
        requires travel > 0, m >= 0;
    assert((0 * m + travel / 2) / travel == 0) by (nonlinear_arith)
        requires travel > 0;
}

/// Clamp an entry-list pixel scroll offset. Offsets are `usize` (not `u16`) so
/// tall lists can still scroll all the way to the bottom.
pub fn clamp_scroll(requested: usize, total_height: usize, viewport_height: u16) -> (scroll: usize)
    ensures
        scroll == min_int(requested as int, max_scroll_of(total_height as int, viewport_height as int)),
{
    let max_scroll = total_height.saturating_sub(viewport_height as usize);
    if requested < max_scroll { requested } else { max_scroll }
}


/// A press lower on the scrollbar track never scrolls less, and never past
/// the end: the top row scrolls to the start and, on a track of two or more
/// rows within the `u16` rows, the bottom row to `max_scroll`.
pub proof fn lemma_bar_row_scroll_monotone_and_exact_at_ends(
    a: int,
    b: int,
    bar_top: u16,
    bar_height: u16,
    max_scroll: usize,
)
    requires
        a <= b,
    ensures
        spec_scroll_from_bar_row(a, bar_top as int, bar_height as int, max_scroll as int)
            <= spec_scroll_from_bar_row(b, bar_top as int, bar_height as int, max_scroll as int),
        spec_scroll_from_bar_row(b, bar_top as int, bar_height as int, max_scroll as int) <= max_scroll,
        spec_scroll_from_bar_row(bar_top as int, bar_top as int, bar_height as int, max_scroll as int) == 0,
        bar_height >= 2 && bar_top + bar_height - 1 <= u16::MAX ==> spec_scroll_from_bar_row(
            bar_top + bar_height - 1,
            bar_top as int,
            bar_height as int,
            max_scroll as int,
        ) == max_scroll,
{
    if !(max_scroll == 0 || bar_height <= 1) {
        let span = bar_height - 1;
        let m = max_scroll as int;
        let ra = bar_relative_row(a, bar_top as int, bar_height as int);
        let rb = bar_relative_row(b, bar_top as int, bar_height as int);
        assert(0 <= ra <= rb <= span);
        assert((ra * m + span / 2) / span <= (rb * m + span / 2) / span) by (nonlinear_arith)
            requires 0 <= ra <= rb, m >= 0, span >= 1;
        assert((rb * m + span / 2) / span <= m) by (nonlinear_arith)
            requires 0 <= rb <= span, m >= 0, span >= 1;
        assert((0 * m + span / 2) / span == 0) by (nonlinear_arith)
            requires span >= 1;
        assert((span * m + span / 2) / span == m) by (nonlinear_arith)
            requires span >= 1, m >= 0;
    }
}


/// A press on the scrollbar track maps its row proportionally onto the scroll
/// range, rounded to nearest (halves up): for a track of `bar_height >= 2`
/// rows within the `u16` rows, the press `rel` rows below the track's top
/// scrolls to `s` with `rel * max_scroll / span` within half a row of `s`
/// (`span` the track's last row offset), i.e. `s * span - span / 2 <= rel *
/// max_scroll < s * span + span - span / 2`. Presses above or below the
/// track act as presses on its top or bottom row.
pub proof fn lemma_bar_row_scroll_is_proportional(
    row: int,
    bar_top: u16,
    bar_height: u16,
    max_scroll: usize,
)
    requires
        bar_height >= 2,
        bar_top + bar_height - 1 <= u16::MAX,
    ensures
        ({
            let span = bar_height - 1;
            let s = spec_scroll_from_bar_row(row, bar_top as int, bar_height as int, max_scroll as int);
            let rel = if row < bar_top {
                0
            } else if row > bar_top + span {
                span
            } else {
                row - bar_top
            };
            &&& s * span <= rel * max_scroll + span / 2
            &&& rel * max_scroll + span / 2 < s * span + span
            &&& 0 <= s <= max_scroll
        }),
{
    let span = bar_height - 1;
    let m = max_scroll as int;
    let rel = bar_relative_row(row, bar_top as int, bar_height as int);
    assert(0 <= rel <= span);
    if max_scroll == 0 {
        assert(rel * m == 0) by (nonlinear_arith)
            requires m == 0;
    } else {
        let s = (rel * m + span / 2) / span;
        assert(rel * m >= 0) by (nonlinear_arith)
            requires rel >= 0, m >= 0;
        assert(s * span <= rel * m + span / 2 && rel * m + span / 2 < s * span + span) by (nonlinear_arith)
            requires s == (rel * m + span / 2) / span, span >= 1, rel * m + span / 2 >= 0;
        assert(s <= m) by (nonlinear_arith)
            requires s == (rel * m + span / 2) / span, span >= 1, 0 <= rel <= span, m >= 0;
        assert(s >= 0) by (nonlinear_arith)
            requires s == (rel * m + span / 2) / span, span >= 1, rel * m + span / 2 >= 0;
    }
}

} // verus!
