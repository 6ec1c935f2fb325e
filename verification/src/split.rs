//! Splitting a rectangle into parts by size rules, with `ratatui`'s
//! constraint layout, and centring a fixed-size rectangle with it.
use vstd::prelude::*;
use crate::geometry::Rect;
use ratatui::layout::{Constraint, Direction, Flex, Layout, Rect as TuiRect};

verus! {

/// How one part of a split is sized along the split's axis.
#[derive(Clone, Copy, Debug, PartialEq, Eq, Structural)]
pub enum SizeRule {
    /// Exactly this many cells.
    Length(u16),
    /// At least this many cells.
    Min(u16),
    /// This share of the area, in percent.
    Percentage(u16),
    /// A share of what is left, in proportion to this weight.
    Fill(u16),
}

/// The axis a rectangle is split along.
#[derive(Clone, Copy, Debug, PartialEq, Eq, Structural)]
pub enum Axis {
    Horizontal,
    Vertical,
}

/// Where the parts sit when they do not fill the area.
#[derive(Clone, Copy, Debug, PartialEq, Eq, Structural)]
pub enum Packing {
    Start,
    Center,
}

/// Where a rect starts along `axis`.
pub open spec fn start_on(r: Rect, axis: Axis) -> int {
    match axis {
        Axis::Horizontal => r.x as int,
        Axis::Vertical => r.y as int,
    }
}

/// How long a rect is along `axis`.
pub open spec fn size_on(r: Rect, axis: Axis) -> int {
    match axis {
        Axis::Horizontal => r.width as int,
        Axis::Vertical => r.height as int,
    }
}

/// The cells a rect spans along `axis`, up to the last `u16` cell.
pub open spec fn span_on(r: Rect, axis: Axis) -> int {
    match axis {
        Axis::Horizontal => r.spec_right() - r.x,
        Axis::Vertical => r.spec_bottom() - r.y,
    }
}

/// `r` spans `area` across `axis` and lies within it along `axis`.
pub open spec fn part_of(r: Rect, area: Rect, axis: Axis) -> bool {
    match axis {
        Axis::Horizontal => r.y == area.y && r.height == area.height && area.x <= r.x && r.x + r.width
            <= area.spec_right(),
        Axis::Vertical => r.x == area.x && r.width == area.width && area.y <= r.y && r.y + r.height
            <= area.spec_bottom(),
    }
}

/// A rule's length, for a `Length` rule.
pub open spec fn rule_length(rule: SizeRule) -> int {
    match rule {
        SizeRule::Length(n) => n as int,
        _ => 0,
    }
}

/// The total of the first `k` rules' lengths.
pub open spec fn lengths_upto(rules: Seq<SizeRule>, k: int) -> int
    decreases k,
{
    if k <= 0 { 0 } else { lengths_upto(rules, k - 1) + rule_length(rules[k - 1]) }
}

/// The least size a `Min` rule asks, for a `Min` rule.
pub open spec fn rule_min(rule: SizeRule) -> int {
    match rule {
        SizeRule::Min(n) => n as int,
        _ => 0,
    }
}

/// Rules that are lengths and at most one minimum, which fit `size`
/// together.
pub open spec fn plain_fit(rules: Seq<SizeRule>, size: int) -> bool {
    &&& forall|i: int| 0 <= i < rules.len() ==> (#[trigger] rules[i] is Length || rules[i] is Min)
    &&& forall|i: int, j: int| 0 <= i < j < rules.len() && #[trigger] rules[i] is Min ==> !(#[trigger] rules[j] is Min)
    &&& forall|i: int| 0 <= i < rules.len() && rules[i] is Min ==> lengths_upto(rules, rules.len() as int) + rule_min(#[trigger] rules[i]) <= size
    &&& lengths_upto(rules, rules.len() as int) <= size
}

/// Part `i`'s size under plain rules: a length is kept; the minimum takes
/// whatever the lengths leave.
pub open spec fn plain_size(rules: Seq<SizeRule>, size: int, i: int) -> int {
    if rules[i] is Min { size - lengths_upto(rules, rules.len() as int) } else { rule_length(rules[i]) }
}

/// Where part `i` starts under plain rules, from the area's start: right
/// after the parts before it.
pub open spec fn plain_start(rules: Seq<SizeRule>, size: int, i: int) -> int
    decreases i,
{
    if i <= 0 { 0 } else { plain_start(rules, size, i - 1) + plain_size(rules, size, i - 1) }
}

/// `Layout::split` of `ratatui` (direction, flex and constraints set from the
/// arguments, no margin or spacing). The solver (`cassowary`) keeps its rows
/// in randomly seeded hash maps, so where the optimum is not unique the
/// parts may differ between runs: only what holds of every outcome is
/// trusted.
/// - One part per rule, each spanning the whole area across the split's
///   axis (`changes_to_rects`) and lying within it along the axis (every
///   solver variable is held to the area's ends by required constraints).
/// - Packed from the start, whatever the rules: the first part starts at the
///   area's start and each later part where the one before it ends (the
///   first spacer is held empty at `REQUIRED - 1` and inner spacers to zero
///   at `REQUIRED / 10`; moving any inner gap to the trailing spacer would
///   improve every other term). With only `Fill` rules the last part ends at
///   the area's end: a fill grows at `MEDIUM`, the trailing spacer only at
///   `MEDIUM / 10`.
/// - Packed from the start, with rules that are lengths and at most one
///   minimum, fitting the area: each length is kept and the minimum takes
///   the rest, the parts following each other from the area's start. Here
///   the optimum is unique: a length holds at strength `STRONG * 10`, a
///   minimum grows at `MEDIUM` and the trailing spacer at `MEDIUM / 10`, and
///   inner spacers are held to zero at `REQUIRED / 10`.
/// - Centred, with one length rule fitting the area: the length is kept,
///   the two spacers are equal (strength `REQUIRED / 10`), and `ratatui`
///   rounds the half-cell start up.
/// Where else the parts fall is left unsaid. `ratatui` adds the rules as
/// non-required constraints, so the solver's `expect` does not fire.
#[verifier::external_body]
pub(crate) fn split_area(area: Rect, axis: Axis, packing: Packing, rules: &Vec<SizeRule>) -> (parts: Vec<Rect>)
    ensures
        parts@.len() == rules@.len(),
        forall|i: int| 0 <= i < parts@.len() ==> part_of(#[trigger] parts@[i], area, axis),
        packing == Packing::Start && parts@.len() > 0 ==> start_on(parts@[0], axis) == start_on(area, axis),
        packing == Packing::Start ==> forall|i: int|
            0 < i < parts@.len() ==> start_on(#[trigger] parts@[i], axis) == start_on(parts@[i - 1], axis) + size_on(
                parts@[i - 1],
                axis,
            ),
        packing == Packing::Start && parts@.len() > 0 && (forall|i: int| 0 <= i < rules@.len() ==> #[trigger] rules@[i] is Fill)
            ==> start_on(parts@[parts@.len() - 1], axis) + size_on(parts@[parts@.len() - 1], axis) == start_on(area, axis)
            + span_on(area, axis),
        packing == Packing::Start && plain_fit(rules@, span_on(area, axis)) ==> forall|i: int|
            0 <= i < parts@.len() ==> start_on(#[trigger] parts@[i], axis) == start_on(area, axis) + plain_start(
                rules@,
                span_on(area, axis),
                i,
            ) && size_on(parts@[i], axis) == plain_size(rules@, span_on(area, axis), i),
        packing == Packing::Center && rules@.len() == 1 && rules@[0] is Length && rule_length(rules@[0])
            <= span_on(area, axis) ==> start_on(parts@[0], axis) == start_on(area, axis) + (span_on(area, axis)
            - rule_length(rules@[0]) + 1) / 2 && size_on(parts@[0], axis) == rule_length(rules@[0]),
{
    let split = Layout::new(
        match axis { Axis::Horizontal => Direction::Horizontal, Axis::Vertical => Direction::Vertical },
        rules.iter().map(|rule| match *rule {
            SizeRule::Length(n) => Constraint::Length(n),
            SizeRule::Min(n) => Constraint::Min(n),
            SizeRule::Percentage(n) => Constraint::Percentage(n),
            SizeRule::Fill(n) => Constraint::Fill(n),
        }),
    ).flex(match packing { Packing::Start => Flex::Start, Packing::Center => Flex::Center })
        .split(TuiRect { x: area.x, y: area.y, width: area.width, height: area.height });
    split.iter().map(|r| Rect { x: r.x, y: r.y, width: r.width, height: r.height }).collect()
}

/// The smaller of two sizes.
pub open spec fn min16(a: u16, b: u16) -> u16 {
    if a < b { a } else { b }
}

/// `inner` lies within `outer`.
pub open spec fn within(inner: Rect, outer: Rect) -> bool {
    &&& outer.x <= inner.x
    &&& inner.x + inner.width <= outer.spec_right()
    &&& outer.y <= inner.y
    &&& inner.y + inner.height <= outer.spec_bottom()
}

/// A `width` by `height` rect centred in `area`, each side capped at what
/// the area spans, the odd cell of slack going before it.
pub open spec fn spec_centered_fixed_size(width: u16, height: u16, area: Rect) -> Rect {
    let span_w = area.spec_right() - area.x;
    let span_h = area.spec_bottom() - area.y;
    let w = if (width as int) < span_w { width as int } else { span_w };
    let h = if (height as int) < span_h { height as int } else { span_h };
    Rect {
        x: (area.x + (span_w - w + 1) / 2) as u16,
        y: (area.y + (span_h - h + 1) / 2) as u16,
        width: w as u16,
        height: h as u16,
    }
}

/// Centre a `width` by `height` rect in `area` (capped at the area's size):
/// the row is centred vertically, then the cell horizontally within it.
pub fn centered_rect_fixed_size(width: u16, height: u16, area: Rect) -> (cell: Rect)
    ensures
        cell == spec_centered_fixed_size(width, height, area),
        within(cell, area),
{
    let span_w: u16 = if area.x as u32 + area.width as u32 > u16::MAX as u32 { u16::MAX - area.x } else { area.width };
    let span_h: u16 = if area.y as u32 + area.height as u32 > u16::MAX as u32 { u16::MAX - area.y } else { area.height };
    let h = if height < span_h { height } else { span_h };
    let w = if width < span_w { width } else { span_w };
    let mut rows: Vec<SizeRule> = Vec::new();
    rows.push(SizeRule::Length(h));
    let row_parts = split_area(area, Axis::Vertical, Packing::Center, &rows);
    let row = row_parts[0];
    assert(part_of(row, area, Axis::Vertical));
    let mut cols: Vec<SizeRule> = Vec::new();
    cols.push(SizeRule::Length(w));
    let cell_parts = split_area(row, Axis::Horizontal, Packing::Center, &cols);
    let cell = cell_parts[0];
    assert(part_of(cell, row, Axis::Horizontal));
    cell
}


/// Three bands splitting an axis around a middle band `percent` of it.
pub open spec fn percent_band_rules(percent: u16) -> Seq<SizeRule> {
    seq![
        SizeRule::Percentage(((100 - percent) / 2) as u16),
        SizeRule::Percentage(percent),
        SizeRule::Percentage(((100 - percent) / 2) as u16),
    ]
}

fn percent_band_rule_list(percent: u16) -> (rules: Vec<SizeRule>)
    requires
        percent <= 100,
    ensures
        rules@ == percent_band_rules(percent),
{
    let side = (100 - percent) / 2;
    let mut rules: Vec<SizeRule> = Vec::new();
    rules.push(SizeRule::Percentage(side));
    rules.push(SizeRule::Percentage(percent));
    rules.push(SizeRule::Percentage(side));
    assert(rules@ =~= percent_band_rules(percent));
    rules
}

/// A rect `percent_x` by `percent_y` of `area`, centred in it: the middle
/// band of a three-band split each way. Where the solver puts the bands'
/// edges is left to it; the rect lies within the area.
pub fn centered_rect(percent_x: u16, percent_y: u16, area: Rect) -> (cell: Rect)
    requires
        percent_x <= 100,
        percent_y <= 100,
    ensures
        within(cell, area),
{
    let rows = percent_band_rule_list(percent_y);
    let row = split_area(area, Axis::Vertical, Packing::Start, &rows)[1];
    let cols = percent_band_rule_list(percent_x);
    split_area(row, Axis::Horizontal, Packing::Start, &cols)[1]
}

} // verus!
