//! The insights panel's tab strip: the widest label set that fits the border,
//! where each label sits, and which tab a click lands on.
use vstd::prelude::*;
use crate::chrome::ChromeStyle;
use crate::geometry::{Rect, sat_sub};
use crate::text::{display_width, str_width};

verus! {

/// Columns of the ` · ` separator between two tab labels.
pub const TAB_SEPARATOR_WIDTH: u16 = 3;

/// Which label set the strip uses.
#[derive(Clone, Copy, Debug, PartialEq, Eq, Structural)]
pub enum StripLevel {
    Full,
    Short,
    Initial,
}

/// The tab labels at each level, one per tab in strip order.
pub struct TabLabels<'a> {
    pub full: &'a [&'a str],
    pub short: &'a [&'a str],
    pub initial: &'a [&'a str],
}

impl<'a> TabLabels<'a> {
    /// Every level labels the same tabs, and there is at least one.
    pub open spec fn wf(self) -> bool {
        &&& self.full@.len() >= 1
        &&& self.short@.len() == self.full@.len()
        &&& self.initial@.len() == self.full@.len()
    }

    pub open spec fn level_labels(self, level: StripLevel) -> Seq<&'a str> {
        match level {
            StripLevel::Full => self.full@,
            StripLevel::Short => self.short@,
            StripLevel::Initial => self.initial@,
        }
    }
}

/// Cells of leading space before the first label: two on flat chrome (in line
/// with the other columns' padded titles), one off the corner when bordered.
pub open spec fn spec_strip_leading(chrome: ChromeStyle) -> int {
    match chrome {
        ChromeStyle::Flat => 2,
        ChromeStyle::Bordered => 1,
    }
}

pub fn strip_leading(chrome: ChromeStyle) -> (leading: u16)
    ensures
        leading == spec_strip_leading(chrome),
{
    match chrome {
        ChromeStyle::Flat => 2,
        ChromeStyle::Bordered => 1,
    }
}

/// The summed display width of the first `n` labels.
pub open spec fn labels_width(labels: Seq<&str>, n: int) -> int
    decreases n,
{
    if n <= 0 {
        0
    } else {
        labels_width(labels, n - 1) + display_width(labels[n - 1]@)
    }
}

/// A strip's total width: the leading space, every label, and a separator
/// between each two.
pub open spec fn spec_strip_width(chrome: ChromeStyle, labels: Seq<&str>) -> int {
    spec_strip_leading(chrome) + labels_width(labels, labels.len() as int) + TAB_SEPARATOR_WIDTH * (
    labels.len() - 1)
}

/// Whether every strip width of `labels` stays within `u16` columns.
pub open spec fn strip_fits_u16(chrome: ChromeStyle, labels: TabLabels) -> bool {
    &&& spec_strip_width(chrome, labels.full@) <= u16::MAX
    &&& spec_strip_width(chrome, labels.short@) <= u16::MAX
    &&& spec_strip_width(chrome, labels.initial@) <= u16::MAX
}

proof fn lemma_labels_width_monotone(labels: Seq<&str>, m: int, n: int)
    requires
        0 <= m <= n,
    ensures
        labels_width(labels, m) <= labels_width(labels, n),
    decreases n - m,
{
    if m < n {
        lemma_labels_width_monotone(labels, m, n - 1);
    }
}

/// The width of a strip of `labels`.
pub fn strip_width(chrome: ChromeStyle, labels: &[&str]) -> (width: usize)
    requires
        labels@.len() >= 1,
        spec_strip_width(chrome, labels@) <= u16::MAX,
    ensures
        width == spec_strip_width(chrome, labels@),
{
    let mut total: usize = 0;
    let mut i: usize = 0;
    while i < labels.len()
        invariant
            i <= labels@.len(),
            labels@.len() >= 1,
            total == labels_width(labels@, i as int),
            spec_strip_width(chrome, labels@) <= u16::MAX,
        decreases labels@.len() - i,
    {
        proof {
            lemma_labels_width_monotone(labels@, i + 1, labels@.len() as int);
        }
        total = total + str_width(labels[i]);
        i += 1;
    }
    strip_leading(chrome) as usize + total + 3 * (labels.len() - 1)
}

/// The widest label set whose strip fits `width`: full titles, then short
/// titles, then initials.
pub open spec fn spec_strip_level(chrome: ChromeStyle, labels: TabLabels, width: int) -> StripLevel {
    if spec_strip_width(chrome, labels.full@) <= width {
        StripLevel::Full
    } else if spec_strip_width(chrome, labels.short@) <= width {
        StripLevel::Short
    } else {
        StripLevel::Initial
    }
}

pub fn strip_level(chrome: ChromeStyle, labels: &TabLabels, width: u16) -> (level: StripLevel)
    requires
        labels.wf(),
        strip_fits_u16(chrome, *labels),
    ensures
        level == spec_strip_level(chrome, *labels, width as int),
{
    if strip_width(chrome, labels.full) <= width as usize {
        StripLevel::Full
    } else if strip_width(chrome, labels.short) <= width as usize {
        StripLevel::Short
    } else {
        StripLevel::Initial
    }
}

/// The label of tab `tab` at the level the strip fits `width` at.
pub fn tab_label<'a>(chrome: ChromeStyle, labels: &TabLabels<'a>, tab: usize, width: u16) -> (label: &'a str)
    requires
        labels.wf(),
        strip_fits_u16(chrome, *labels),
        tab < labels.full@.len(),
    ensures
        label == labels.level_labels(spec_strip_level(chrome, *labels, width as int))[tab as int],
{
    match strip_level(chrome, labels, width) {
        StripLevel::Full => labels.full[tab],
        StripLevel::Short => labels.short[tab],
        StripLevel::Initial => labels.initial[tab],
    }
}

/// Where label `i` of a strip starts: after the leading space, the earlier
/// labels and a separator after each of them.
pub open spec fn segment_start(chrome: ChromeStyle, labels: Seq<&str>, i: int) -> int {
    spec_strip_leading(chrome) + labels_width(labels, i) + TAB_SEPARATOR_WIDTH * i
}

/// The column range each tab's label occupies, measured from the title's
/// start, at the level the strip fits `width` at.
pub open spec fn spec_tab_segments(chrome: ChromeStyle, labels: TabLabels, width: int) -> Seq<(u16, u16)> {
    let shown = labels.level_labels(spec_strip_level(chrome, labels, width));
    Seq::new(
        shown.len(),
        |i: int|
            (
                segment_start(chrome, shown, i) as u16,
                (segment_start(chrome, shown, i) + display_width(shown[i]@)) as u16,
            ),
    )
}

/// The column range of each tab label within a border title `width` wide —
/// the one geometry the title drawing and the click hit-test share.
pub fn tab_strip_segments(chrome: ChromeStyle, labels: &TabLabels, width: u16) -> (segments: Vec<(u16, u16)>)
    requires
        labels.wf(),
        strip_fits_u16(chrome, *labels),
    ensures
        segments@ == spec_tab_segments(chrome, *labels, width as int),
{
    let level = strip_level(chrome, labels, width);
    let shown: &[&str] = match level {
        StripLevel::Full => labels.full,
        StripLevel::Short => labels.short,
        StripLevel::Initial => labels.initial,
    };
    let ghost s = shown@;
    assert(s == labels.level_labels(level));
    let mut segments: Vec<(u16, u16)> = Vec::new();
    let mut x: u32 = strip_leading(chrome) as u32;
    let mut i: usize = 0;
    while i < shown.len()
        invariant
            s == shown@,
            s.len() >= 1,
            spec_strip_width(chrome, s) <= u16::MAX,
            i <= s.len(),
            x == segment_start(chrome, s, i as int),
            segments@ == Seq::new(
                i as nat,
                |k: int|
                    (
                        segment_start(chrome, s, k) as u16,
                        (segment_start(chrome, s, k) + display_width(s[k]@)) as u16,
                    ),
            ),
        decreases s.len() - i,
    {
        proof {
            lemma_labels_width_monotone(s, i + 1, s.len() as int);
        }
        let w = str_width(shown[i]) as u32;
        let ghost before = segments@;
        segments.push((x as u16, (x + w) as u16));
        assert(segments@ =~= Seq::new(
            (i + 1) as nat,
            |k: int|
                (
                    segment_start(chrome, s, k) as u16,
                    (segment_start(chrome, s, k) + display_width(s[k]@)) as u16,
                ),
        ));
        x = x + w + TAB_SEPARATOR_WIDTH as u32;
        i += 1;
    }
    segments
}

/// The first segment, from `i` on, whose columns (offset by `title_x`)
/// contain `column`.
pub open spec fn segment_hit(segments: Seq<(u16, u16)>, title_x: int, column: int, i: int) -> Option<int>
    decreases segments.len() - i,
{
    if i < 0 || i >= segments.len() {
        None
    } else if title_x + segments[i].0 <= column < title_x + segments[i].1 {
        Some(i)
    } else {
        segment_hit(segments, title_x, column, i + 1)
    }
}

/// The tab whose label covers `(column, row)` of a panel `area` whose top
/// border carries the strip, one cell right of the corner.
pub open spec fn spec_insights_tab_at(
    chrome: ChromeStyle,
    labels: TabLabels,
    area: Rect,
    column: int,
    row: int,
) -> Option<int> {
    if row != area.y {
        None
    } else {
        segment_hit(
            spec_tab_segments(chrome, labels, sat_sub(area.width as int, 2)),
            area.x + 1,
            column,
            0,
        )
    }
}

/// The tab under `(column, row)`: only the panel's top row holds the strip,
/// and only a label's own cells count, not the separators between them.
pub fn insights_tab_at(chrome: ChromeStyle, labels: &TabLabels, area: Rect, column: u16, row: u16) -> (tab: Option<usize>)
    requires
        labels.wf(),
        strip_fits_u16(chrome, *labels),
    ensures
        match tab {
            Some(t) => spec_insights_tab_at(chrome, *labels, area, column as int, row as int) == Some(
                t as int,
            ),
            None => spec_insights_tab_at(chrome, *labels, area, column as int, row as int) is None,
        },
{
    if row != area.y {
        return None;
    }
    let title_x = area.x as u32 + 1;
    let inner_width = area.width.saturating_sub(2);
    let segments = tab_strip_segments(chrome, labels, inner_width);
    let ghost segs = segments@;
    assert(inner_width as int == sat_sub(area.width as int, 2));
    assert(segs == spec_tab_segments(chrome, *labels, sat_sub(area.width as int, 2)));
    let col = column as u32;
    let mut i: usize = 0;
    while i < segments.len()
        invariant
            segs == segments@,
            segs == spec_tab_segments(chrome, *labels, sat_sub(area.width as int, 2)),
            row == area.y,
            title_x == area.x + 1,
            col == column,
            i <= segs.len(),
            title_x <= 65536,
            segment_hit(segs, title_x as int, col as int, 0) == segment_hit(
                segs,
                title_x as int,
                col as int,
                i as int,
            ),
        decreases segs.len() - i,
    {
        let (start, end) = segments[i];
        if title_x + start as u32 <= col && col < title_x + end as u32 {
            assert(segment_hit(segs, title_x as int, col as int, i as int) == Some(i as int));
            return Some(i);
        }
        i += 1;
    }
    None
}

proof fn lemma_segment_hit_at(segments: Seq<(u16, u16)>, title_x: int, column: int, i: int, j: int)
    requires
        0 <= i <= j < segments.len(),
        title_x + segments[j].0 <= column < title_x + segments[j].1,
        forall|m: int| i <= m < j ==> column >= title_x + (#[trigger] segments[m]).1,
    ensures
        segment_hit(segments, title_x, column, i) == Some(j),
    decreases j - i,
{
    if i < j {
        lemma_segment_hit_at(segments, title_x, column, i + 1, j);
    }
}

/// Clicking any cell of a tab's label on the panel's top row selects that
/// tab: the labels sit left to right with separators between them, so the
/// `k`th cell of label `t` belongs to no other label.
pub proof fn lemma_clicking_a_tab_label_selects_it(
    chrome: ChromeStyle,
    labels: TabLabels,
    area: Rect,
    t: int,
    k: int,
)
    requires
        labels.wf(),
        strip_fits_u16(chrome, labels),
        0 <= t < labels.full@.len(),
        0 <= k < spec_tab_segments(chrome, labels, sat_sub(area.width as int, 2))[t].1
            - spec_tab_segments(chrome, labels, sat_sub(area.width as int, 2))[t].0,
    ensures
        spec_insights_tab_at(
            chrome,
            labels,
            area,
            area.x + 1 + spec_tab_segments(chrome, labels, sat_sub(area.width as int, 2))[t].0 + k,
            area.y as int,
        ) == Some(t),
{
    let width = sat_sub(area.width as int, 2);
    let level = spec_strip_level(chrome, labels, width);
    let shown = labels.level_labels(level);
    let segs = spec_tab_segments(chrome, labels, width);
    let title_x = area.x + 1;
    let column = title_x + segs[t].0 + k;
    assert(shown.len() == labels.full@.len());
    assert(spec_strip_width(chrome, shown) <= u16::MAX);
    lemma_labels_width_monotone(shown, t + 1, shown.len() as int);
    assert(segment_start(chrome, shown, t) + display_width(shown[t]@) <= spec_strip_width(chrome, shown));
    lemma_labels_width_monotone(shown, 0, t);
    assert(labels_width(shown, t + 1) == labels_width(shown, t) + display_width(shown[t]@));
    assert(segment_start(chrome, shown, t) + display_width(shown[t]@) <= u16::MAX);
    assert(segs[t] == (
        segment_start(chrome, shown, t) as u16,
        (segment_start(chrome, shown, t) + display_width(shown[t]@)) as u16,
    ));
    assert forall|m: int| 0 <= m < t implies column >= title_x + (#[trigger] segs[m]).1 by {
        lemma_labels_width_monotone(shown, m + 1, t);
        lemma_labels_width_monotone(shown, 0, m);
        assert(labels_width(shown, m + 1) == labels_width(shown, m) + display_width(shown[m]@));
        assert(segment_start(chrome, shown, m) + display_width(shown[m]@) <= segment_start(chrome, shown, t));
        assert(segs[m] == (
            segment_start(chrome, shown, m) as u16,
            (segment_start(chrome, shown, m) + display_width(shown[m]@)) as u16,
        ));
    }
    lemma_segment_hit_at(segs, title_x, column, 0, t);
}

} // verus!
