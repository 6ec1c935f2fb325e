//! Key hints: the `key  label` chips of the footer and the dialogs, laid out
//! as a justified column grid, and the hit-test that maps a click back to the
//! hint drawn under it.
use vstd::prelude::*;
use crate::geometry::{sat_add_u16, sat_sub};
use crate::text::{display_width, repeat_char, repeat_string, str_width};

verus! {

/// What a hint does when its chip is clicked (or its key pressed).
#[derive(Clone, Copy, Debug, PartialEq, Eq, Structural)]
pub enum HintId {
    /// Select all text in whichever single-line field owns the caret.
    InputSelectAll,
    NewJournal,
    ToggleArchiveJournal,
    NewEntry,
    BeginSearch,
    Quit,
    EditSelected,
    ViewSelected,
    BeginDelete,
    ToggleStarred,
    ExitSearch,
    CancelOverlay,
    CloseEntryView,
    ExpandEntryView,
    MetadataToggle,
    MetadataSwitchFocus,
    MetadataAddFromInput,
    MetadataSave,
    FeelingsToggle,
    FeelingsExpand,
    FeelingsCollapse,
    FeelingsSwitchFocus,
    FeelingsSave,
    MoodDecrease,
    MoodIncrease,
    MoodSave,
    MoodClear,
    LocationSwitchFocus,
    LocationResolve,
    LocationGrabDevice,
    LocationSelectRow,
    LocationSave,
    LocationClear,
    OpenImageViewer,
    OpenMetadataMenu,
    OpenSettings,
    ThemePickerApply,
    ThemePickerRevert,
    ThemePickerChrome,
    ThemePickerMode,
    HintsToggle,
    ToggleJournals,
    InsightsTab,
    InsightsScope,
    InsightsTimeframe,
    ExpandInsights,
    CloseInsights,
    EditorSave,
    EditorDiscard,
    EditorFullscreen,
    EditorMetadata,
    EditorHelp,
}

/// One hint: the key chip text, the label after it, and what it triggers.
#[derive(Clone, Copy, Debug)]
pub struct Hint {
    pub label: &'static str,
    pub key_hint: &'static str,
    pub id: HintId,
}

/// Minimum blank columns kept around and between hints when a row is justified.
pub const HINT_MIN_GAP: usize = 2;

/// The key portion of a hint: a space on each side so the chip reads as a
/// padded button.
pub open spec fn key_chip(key: Seq<char>) -> Seq<char> {
    seq![' '] + key + seq![' ']
}

/// A hint's full text: the key chip, a space, the label.
pub open spec fn hint_text(hint: Hint) -> Seq<char> {
    key_chip(hint.key_hint@) + seq![' '] + hint.label@
}

/// The columns a hint's text occupies.
pub open spec fn hint_w(hint: Hint) -> int {
    display_width(hint_text(hint)) as int
}

/// A hint whose text fits on a `u16`-wide row beside its edge gap even at
/// three columns a character (the most any character takes): key and label
/// together at most 21840 characters, so its width is at most 65529 columns.
pub open spec fn hint_bounded(hint: Hint) -> bool {
    hint.key_hint@.len() + hint.label@.len() <= 21840
}

/// Every hint of the list is bounded.
pub open spec fn hints_short(hints: Seq<Hint>) -> bool {
    forall|i: int| 0 <= i < hints.len() ==> hint_bounded(#[trigger] hints[i])
}

impl Hint {
    pub fn new(label: &'static str, key_hint: &'static str, id: HintId) -> (hint: Self)
        ensures
            hint.label == label,
            hint.key_hint == key_hint,
            hint.id == id,
    {
        Self { label, key_hint, id }
    }

    /// The hint's visual text, identical to what the grid draws.
    pub fn text(self) -> (text: String)
        ensures
            text@ == hint_text(self),
    {
        let mut text = key_chip_text(self.key_hint);
        text.append(" ");
        text.append(self.label);
        proof {
            reveal_strlit(" ");
        }
        assert(text@ =~= hint_text(self));
        text
    }
}

/// Saturating `usize` to `u16`, for column math that must stay in bounds.
pub fn clamp_u16(n: usize) -> (r: u16)
    ensures
        r == clamp16(n as int),
{
    if n > u16::MAX as usize {
        u16::MAX
    } else {
        n as u16
    }
}

/// `n` capped at `u16::MAX`.
pub open spec fn clamp16(n: int) -> u16 {
    if n > u16::MAX {
        u16::MAX
    } else if n < 0 {
        0
    } else {
        n as u16
    }
}

/// Space-around gap distribution: with `content_total` columns of content and
/// `gap_count` gaps (each already reserving the minimum gap), spread the
/// leftover width evenly. Returns `(base, remainder)`: every gap grows by
/// `base`, and the first `remainder` gaps grow by one more.
pub fn spread_gaps(area: usize, content_total: usize, gap_count: usize) -> (r: (usize, usize))
    requires
        gap_count > 0,
        content_total + gap_count * 2 <= usize::MAX,
    ensures
        r.0 == spread_extra(area as int, content_total as int, gap_count as int) / gap_count as int,
        r.1 == spread_extra(area as int, content_total as int, gap_count as int) % gap_count as int,
{
    let extra = area.saturating_sub(content_total + gap_count * HINT_MIN_GAP);
    (extra / gap_count, extra % gap_count)
}

/// The leftover width once the content and the minimum gaps are placed.
pub open spec fn spread_extra(area: int, content_total: int, gap_count: int) -> int {
    sat_sub(area, content_total + gap_count * 2)
}

/// The key portion of a hint as plain text: the key padded by one space on
/// each side.
pub fn key_chip_text(key: &str) -> (text: String)
    ensures
        text@ == key_chip(key@),
{
    let mut text = String::new();
    text.append(" ");
    text.append(key);
    text.append(" ");
    proof {
        reveal_strlit(" ");
    }
    assert(text@ =~= key_chip(key@));
    text
}

/// The columns `hint` occupies.
pub fn hint_width(hint: &Hint) -> (width: usize)
    ensures
        width == hint_w(*hint),
        width <= 3 * (hint.key_hint@.len() + hint.label@.len() + 3),
{
    let text = hint.text();
    str_width(text.as_str())
}

/// The span a hit-test gives a hint: its width cut to `u16` (as a cast
/// does), which is its width for any hint narrower than `u16::MAX` columns.
pub open spec fn hit_width(hint: Hint) -> int {
    (hint_w(hint) as u16) as int
}

/// Whether the hint placed at `placement.0` covers row offset `rel`.
pub open spec fn placement_covers(placement: (u16, Hint), rel: int) -> bool {
    placement.0 <= rel < sat_add_u16(placement.0 as int, hit_width(placement.1))
}

/// The id of the first placement, from index `i` on, covering `rel`.
pub open spec fn first_covering(placements: Seq<(u16, Hint)>, rel: int, i: int) -> Option<HintId>
    decreases placements.len() - i,
{
    if i < 0 || i >= placements.len() {
        None
    } else if placement_covers(placements[i], rel) {
        Some(placements[i].1.id)
    } else {
        first_covering(placements, rel, i + 1)
    }
}

/// The hint under column `col` of a row whose placements start at `origin_x`.
pub open spec fn spec_placement_at(placements: Seq<(u16, Hint)>, origin_x: int, col: int) -> Option<
    HintId,
> {
    if col < origin_x {
        None
    } else {
        first_covering(placements, col - origin_x, 0)
    }
}

/// Every placed hint is bounded.
pub open spec fn placements_bounded(placements: Seq<(u16, Hint)>) -> bool {
    forall|i: int| 0 <= i < placements.len() ==> hint_bounded(#[trigger] placements[i].1)
}

/// The id of the hint whose span contains `col` (relative to `origin_x`).
pub fn placement_at(placements: &[(u16, Hint)], origin_x: u16, col: u16) -> (id: Option<HintId>)
    ensures
        id == spec_placement_at(placements@, origin_x as int, col as int),
{
    if col < origin_x {
        return None;
    }
    let rel = col - origin_x;
    let mut i = 0usize;
    while i < placements.len()
        invariant
            0 <= i <= placements@.len(),
            col >= origin_x,
            rel == col - origin_x,
            first_covering(placements@, rel as int, i as int) == first_covering(
                placements@,
                rel as int,
                0,
            ),
        decreases placements@.len() - i,
    {
        let (start, hint) = placements[i];
        let full_width = hint_width(&hint);
        let width = full_width as u16;
        assert(placement_covers(placements@[i as int], rel as int) == (rel >= start && rel
            < start.saturating_add(width)));
        if rel >= start && rel < start.saturating_add(width) {
            return Some(hint.id);
        }
        i += 1;
    }
    None
}

// ── The hint grid ────────────────────────────────────────────────────────────

/// The sum of a sequence of integers.
pub open spec fn seq_sum(s: Seq<int>) -> int
    decreases s.len(),
{
    if s.len() == 0 {
        0
    } else {
        seq_sum(s.drop_last()) + s.last()
    }
}

/// The widths of `hints`, in order.
pub open spec fn hint_widths(hints: Seq<Hint>) -> Seq<int> {
    hints.map_values(|hint: Hint| hint_w(hint))
}

/// Columns the first `k` hints need on one row: each with its leading minimum
/// gap, plus the trailing edge gap.
pub open spec fn fit_cost(hints: Seq<Hint>, k: int) -> int {
    2 + 2 * k + seq_sum(hint_widths(hints.take(k)))
}

/// Greedily extend a first row of `k` hints while the next one still fits.
pub open spec fn greedy_from(hints: Seq<Hint>, width: int, k: int) -> int
    decreases hints.len() - k,
{
    if 0 <= k < hints.len() && fit_cost(hints, k + 1) <= width {
        greedy_from(hints, width, k + 1)
    } else {
        k
    }
}

/// How many grid columns the hints can use: as many as greedily fit on the
/// first row (with minimum gaps), at least one.
pub open spec fn spec_columns_that_fit(hints: Seq<Hint>, width: int) -> int {
    if hints.len() == 0 {
        1
    } else {
        greedy_from(hints, width, 1)
    }
}

proof fn lemma_fit_cost_step(hints: Seq<Hint>, k: int)
    requires
        0 <= k < hints.len(),
    ensures
        fit_cost(hints, k + 1) == fit_cost(hints, k) + 2 + hint_w(hints[k]),
{
    assert(hint_widths(hints.take(k + 1)).drop_last() =~= hint_widths(hints.take(k)));
}

/// How many equal grid columns the hints can use: greedily fit as many as
/// possible on the first row (with minimum gaps), at least one.
pub fn columns_that_fit(hints: &[Hint], width: u16) -> (columns: usize)
    requires
        hints_short(hints@),
    ensures
        columns == spec_columns_that_fit(hints@, width as int),
        1 <= columns,
        columns <= hints@.len() || columns == 1,
        columns <= 32767,
{
    let width = width as usize;
    let mut used: usize = HINT_MIN_GAP;
    let mut columns: usize = 0;
    let mut done = false;
    while !done && columns < hints.len()
        invariant
            hints_short(hints@),
            width <= u16::MAX,
            0 <= columns <= hints@.len(),
            used == fit_cost(hints@, columns as int),
            used >= 2 + 2 * columns,
            used <= width + 65533,
            columns >= 2 ==> used <= width,
            columns >= 1 ==> greedy_from(hints@, width as int, 1) == greedy_from(
                hints@,
                width as int,
                columns as int,
            ),
            done ==> columns >= 1 && columns < hints@.len() && fit_cost(
                hints@,
                columns as int + 1,
            ) > width,
        decreases hints@.len() - columns + (if done { 0int } else { 1int }),
    {
        let hint = hints[columns];
        assert(hint_bounded(hints@[columns as int]));
        let need = HINT_MIN_GAP + hint_width(&hint);
        proof {
            lemma_fit_cost_step(hints@, columns as int);
        }
        if columns > 0 && used + need > width {
            done = true;
        } else {
            used += need;
            columns += 1;
        }
    }
    if columns == 0 {
        1
    } else {
        columns
    }
}

/// `hints` cut into consecutive rows of `c` (the last row may be shorter).
pub open spec fn chunks(hints: Seq<Hint>, c: int) -> Seq<Seq<Hint>>
    decreases hints.len(),
{
    if hints.len() == 0 {
        Seq::empty()
    } else if c <= 0 || hints.len() <= c {
        seq![hints]
    } else {
        seq![hints.take(c)] + chunks(hints.skip(c), c)
    }
}

/// The widest hint in grid column `j` over all `rows`.
pub open spec fn col_width(rows: Seq<Seq<Hint>>, j: int) -> int
    decreases rows.len(),
{
    if rows.len() == 0 {
        0
    } else {
        let prev = col_width(rows.drop_last(), j);
        let here = if 0 <= j < rows.last().len() {
            hint_w(rows.last()[j])
        } else {
            0
        };
        if prev >= here {
            prev
        } else {
            here
        }
    }
}

/// The content width of each of the `c` grid columns.
pub open spec fn col_widths(rows: Seq<Seq<Hint>>, c: int) -> Seq<int> {
    Seq::new(c as nat, |j: int| col_width(rows, j))
}

/// Whether a `c`-column grid of `hints` fits `width` with minimum gaps (a
/// single column always does).
pub open spec fn grid_fits(hints: Seq<Hint>, c: int, width: int) -> bool {
    c == 1 || seq_sum(col_widths(chunks(hints, c), c)) + 2 * (c + 1) <= width
}

/// The widest grid, from `c` columns down, that fits.
pub open spec fn chosen_columns(hints: Seq<Hint>, width: int, c: int) -> int
    decreases c,
{
    if c <= 1 || grid_fits(hints, c, width) {
        c
    } else {
        chosen_columns(hints, width, c - 1)
    }
}

/// The start column of grid column `j`: every gap widened by `base`, the first
/// `rem` gaps by one more, each column as wide as its widest hint.
pub open spec fn col_start(widths: Seq<int>, base: int, rem: int, j: int) -> int
    decreases j,
{
    let step = 2 + base + if j < rem {
        1int
    } else {
        0int
    };
    if j <= 0 {
        step
    } else {
        col_start(widths, base, rem, j - 1) + widths[j - 1] + step
    }
}

/// The shared start columns of a `c`-column grid of `hints` in `width` columns.
pub open spec fn col_positions(hints: Seq<Hint>, width: int, c: int) -> Seq<u16> {
    let widths = col_widths(chunks(hints, c), c);
    let gaps = c + 1;
    let extra = spread_extra(width, seq_sum(widths), gaps);
    Seq::new(c as nat, |j: int| clamp16(col_start(widths, extra / gaps, extra % gaps, j)))
}

/// The text of a grid row's first `k` hints and the column after them: each
/// hint padded with spaces out to its column start (never backwards).
pub open spec fn row_text_upto(col_x: Seq<u16>, row: Seq<Hint>, k: int) -> (Seq<char>, int)
    decreases k,
{
    if k <= 0 {
        (Seq::empty(), 0)
    } else {
        let (text, col) = row_text_upto(col_x, row, k - 1);
        let start = col_x[k - 1] as int;
        let pad = if col < start {
            start - col
        } else {
            0
        };
        (
            text + repeat_char(' ', pad as nat) + hint_text(row[k - 1]),
            col + pad + hint_w(row[k - 1]),
        )
    }
}

/// A laid-out grid row: its visual text and `(start column, hint)` for each
/// hint, left-aligned at the shared column starts.
pub open spec fn grid_row(col_x: Seq<u16>, row: Seq<Hint>) -> (Seq<char>, Seq<(u16, Hint)>) {
    (row_text_upto(col_x, row, row.len() as int).0, Seq::new(row.len(), |i: int| (col_x[i], row[i])))
}

/// The hint grid of `hints` in `width` columns, one entry per row.
pub open spec fn spec_rendered_hint_lines(hints: Seq<Hint>, width: int) -> Seq<
    (Seq<char>, Seq<(u16, Hint)>),
> {
    if hints.len() == 0 {
        Seq::empty()
    } else {
        let c = chosen_columns(hints, width, spec_columns_that_fit(hints, width));
        let col_x = col_positions(hints, width, c);
        let rows = chunks(hints, c);
        Seq::new(rows.len(), |r: int| grid_row(col_x, rows[r]))
    }
}

/// One laid-out hint row: the full visual text (identical to what is drawn)
/// and `(start column, hint)` for each hint, columns absolute within the row.
#[derive(Debug)]
pub struct RenderedHintLine {
    pub text: String,
    pub placements: Vec<(u16, Hint)>,
}

impl View for RenderedHintLine {
    type V = (Seq<char>, Seq<(u16, Hint)>);

    open spec fn view(&self) -> (Seq<char>, Seq<(u16, Hint)>) {
        (self.text@, self.placements@)
    }
}

proof fn lemma_row_end_monotone(col_x: Seq<u16>, row: Seq<Hint>, k: int, m: int)
    requires
        0 <= k <= m,
    ensures
        row_text_upto(col_x, row, k).1 <= row_text_upto(col_x, row, m).1,
    decreases m - k,
{
    if k < m {
        lemma_row_end_monotone(col_x, row, k, m - 1);
    }
}

/// Place a row's hints at the shared column starts, left-aligned in each column.
pub fn build_grid_row(col_x: &[u16], hints: &[Hint]) -> (line: RenderedHintLine)
    requires
        hints@.len() <= col_x@.len(),
        row_text_upto(col_x@, hints@, hints@.len() as int).1 <= u16::MAX,
    ensures
        line@ == grid_row(col_x@, hints@),
{
    let mut text = String::new();
    let mut col: u16 = 0;
    let mut placements: Vec<(u16, Hint)> = Vec::new();
    let mut index = 0usize;
    while index < hints.len()
        invariant
            index <= hints@.len(),
            hints@.len() <= col_x@.len(),
            row_text_upto(col_x@, hints@, hints@.len() as int).1 <= u16::MAX,
            text@ == row_text_upto(col_x@, hints@, index as int).0,
            col == row_text_upto(col_x@, hints@, index as int).1,
            placements@ == Seq::new(index as nat, |i: int| (col_x@[i], hints@[i])),
        decreases hints@.len() - index,
    {
        let start = col_x[index];
        let hint = hints[index];
        proof {
            lemma_row_end_monotone(col_x@, hints@, index as int + 1, hints@.len() as int);
        }
        if col < start {
            let pad = repeat_string(' ', (start - col) as usize);
            text.append(pad.as_str());
            col = start;
        } else {
            assert(repeat_char(' ', 0) =~= Seq::<char>::empty());
        }
        placements.push((start, hint));
        let chip = hint.text();
        text.append(chip.as_str());
        let width = hint_width(&hint);
        col += width as u16;
        index += 1;
        assert(text@ =~= row_text_upto(col_x@, hints@, index as int).0);
        assert(placements@ =~= Seq::new(index as nat, |i: int| (col_x@[i], hints@[i])));
    }
    RenderedHintLine { text, placements }
}

/// The hint rows of a `Vec` of rows.
pub open spec fn rows_view(rows: Seq<Vec<Hint>>) -> Seq<Seq<Hint>> {
    rows.map_values(|row: Vec<Hint>| row@)
}

proof fn lemma_chunks_step(hints: Seq<Hint>, c: int, s: int)
    requires
        c >= 1,
        0 <= s < hints.len(),
    ensures
        ({
            let end = if s + c < hints.len() {
                s + c
            } else {
                hints.len() as int
            };
            chunks(hints.skip(s), c) == seq![hints.subrange(s, end)] + chunks(hints.skip(end), c)
        }),
{
    let t = hints.skip(s);
    if t.len() <= c {
        assert(t =~= hints.subrange(s, hints.len() as int));
        assert(hints.skip(hints.len() as int) =~= Seq::<Hint>::empty());
        assert(chunks(Seq::<Hint>::empty(), c) =~= Seq::<Seq<Hint>>::empty());
        assert(seq![t] + Seq::<Seq<Hint>>::empty() =~= seq![t]);
    } else {
        assert(t.take(c) =~= hints.subrange(s, s + c));
        assert(t.skip(c) =~= hints.skip(s + c));
    }
}

/// Every row of a chunking holds between one and `c` hints, all from the list.
proof fn lemma_chunks_rows(hints: Seq<Hint>, c: int)
    requires
        c >= 1,
    ensures
        forall|r: int|
            0 <= r < chunks(hints, c).len() ==> 1 <= (#[trigger] chunks(hints, c)[r]).len() <= c,
        hints_short(hints) ==> forall|r: int|
            0 <= r < chunks(hints, c).len() ==> hints_short(#[trigger] chunks(hints, c)[r]),
        hints.len() > 0 ==> chunks(hints, c).len() > 0,
    decreases hints.len(),
{
    if hints.len() > c {
        lemma_chunks_rows(hints.skip(c), c);
        let rest = chunks(hints.skip(c), c);
        assert(chunks(hints, c) == seq![hints.take(c)] + rest);
        assert forall|r: int| 0 <= r < chunks(hints, c).len() implies 1 <= (#[trigger] chunks(
            hints,
            c,
        )[r]).len() <= c by {
            if r > 0 {
                assert(chunks(hints, c)[r] == rest[r - 1]);
            }
        }
        if hints_short(hints) {
            assert(hints_short(hints.skip(c)));
            assert forall|r: int| 0 <= r < chunks(hints, c).len() implies hints_short(
                #[trigger] chunks(hints, c)[r],
            ) by {
                if r > 0 {
                    assert(chunks(hints, c)[r] == rest[r - 1]);
                } else {
                    assert(chunks(hints, c)[0] == hints.take(c));
                }
            }
        }
    }
}

/// Rows cut from hints whose widths are their character counts keep that.
proof fn lemma_chunks_widths_are_lengths(hints: Seq<Hint>, c: int)
    requires
        c >= 1,
        widths_are_lengths(hints),
    ensures
        forall|r: int|
            0 <= r < chunks(hints, c).len() ==> widths_are_lengths(#[trigger] chunks(hints, c)[r]),
    decreases hints.len(),
{
    if hints.len() > c {
        assert(widths_are_lengths(hints.skip(c)));
        lemma_chunks_widths_are_lengths(hints.skip(c), c);
        let rest = chunks(hints.skip(c), c);
        assert(chunks(hints, c) == seq![hints.take(c)] + rest);
        assert forall|r: int| 0 <= r < chunks(hints, c).len() implies widths_are_lengths(
            #[trigger] chunks(hints, c)[r],
        ) by {
            if r > 0 {
                assert(chunks(hints, c)[r] == rest[r - 1]);
            } else {
                assert(chunks(hints, c)[0] == hints.take(c));
            }
        }
    } else if hints.len() > 0 {
        assert(chunks(hints, c) == seq![hints]);
    }
}

/// Cut `hints` into consecutive rows of `columns`.
fn chunk_rows(hints: &[Hint], columns: usize) -> (rows: Vec<Vec<Hint>>)
    requires
        columns >= 1,
    ensures
        rows_view(rows@) == chunks(hints@, columns as int),
{
    let mut rows: Vec<Vec<Hint>> = Vec::new();
    let mut start = 0usize;
    assert(hints@.skip(0) =~= hints@);
    assert(rows_view(rows@) =~= Seq::<Seq<Hint>>::empty());
    assert(Seq::<Seq<Hint>>::empty() + chunks(hints@, columns as int) =~= chunks(
        hints@,
        columns as int,
    ));
    while start < hints.len()
        invariant
            start <= hints@.len(),
            columns >= 1,
            rows_view(rows@) + chunks(hints@.skip(start as int), columns as int) == chunks(
                hints@,
                columns as int,
            ),
        decreases hints@.len() - start,
    {
        let end = if columns < hints.len() - start {
            start + columns
        } else {
            hints.len()
        };
        let mut row: Vec<Hint> = Vec::new();
        let mut k = start;
        while k < end
            invariant
                start <= k <= end <= hints@.len(),
                row@ == hints@.subrange(start as int, k as int),
            decreases end - k,
        {
            row.push(hints[k]);
            k += 1;
            assert(row@ =~= hints@.subrange(start as int, k as int));
        }
        proof {
            lemma_chunks_step(hints@, columns as int, start as int);
            let old_rows = rows_view(rows@);
            assert(rows_view(rows@.push(row)) =~= old_rows.push(row@));
            assert(old_rows.push(row@) + chunks(hints@.skip(end as int), columns as int) =~= old_rows
                + (seq![row@] + chunks(hints@.skip(end as int), columns as int)));
        }
        rows.push(row);
        start = end;
    }
    assert(hints@.skip(start as int) =~= Seq::<Hint>::empty());
    assert(rows_view(rows@) + Seq::<Seq<Hint>>::empty() =~= rows_view(rows@));
    rows
}

proof fn lemma_col_width_nonneg(rows: Seq<Seq<Hint>>, j: int)
    ensures
        col_width(rows, j) >= 0,
    decreases rows.len(),
{
    if rows.len() > 0 {
        lemma_col_width_nonneg(rows.drop_last(), j);
    }
}

proof fn lemma_col_width_step(rows: Seq<Seq<Hint>>, r: int, j: int)
    requires
        0 <= r < rows.len(),
    ensures
        col_width(rows.take(r + 1), j) == ({
            let prev = col_width(rows.take(r), j);
            let here = if 0 <= j < rows[r].len() {
                hint_w(rows[r][j])
            } else {
                0
            };
            if prev >= here {
                prev
            } else {
                here
            }
        }),
{
    assert(rows.take(r + 1).drop_last() =~= rows.take(r));
    assert(rows.take(r + 1).last() == rows[r]);
}

/// The widest hint of each grid column.
fn column_widths(rows: &Vec<Vec<Hint>>, columns: usize) -> (widths: Vec<usize>)
    requires
        forall|r: int| 0 <= r < rows@.len() ==> (#[trigger] rows@[r])@.len() <= columns,
        forall|r: int| 0 <= r < rows@.len() ==> hints_short((#[trigger] rows@[r])@),
    ensures
        widths@.len() == columns,
        forall|j: int|
            0 <= j < columns ==> (#[trigger] widths@[j]) == col_width(rows_view(rows@), j),
        forall|j: int| 0 <= j < columns ==> (#[trigger] widths@[j]) <= 65529,
{
    let ghost rv = rows_view(rows@);
    let mut widths: Vec<usize> = Vec::new();
    let mut j = 0usize;
    while j < columns
        invariant
            j <= columns,
            widths@.len() == j,
            forall|i: int| 0 <= i < j ==> (#[trigger] widths@[i]) == 0,
        decreases columns - j,
    {
        widths.push(0);
        j += 1;
    }
    let mut r = 0usize;
    while r < rows.len()
        invariant
            r <= rows@.len(),
            rv == rows_view(rows@),
            widths@.len() == columns,
            forall|r2: int| 0 <= r2 < rows@.len() ==> (#[trigger] rows@[r2])@.len() <= columns,
            forall|r2: int| 0 <= r2 < rows@.len() ==> hints_short((#[trigger] rows@[r2])@),
            forall|i: int|
                0 <= i < columns ==> (#[trigger] widths@[i]) == col_width(rv.take(r as int), i),
            forall|i: int| 0 <= i < columns ==> (#[trigger] widths@[i]) <= 65529,
        decreases rows@.len() - r,
    {
        let row = &rows[r];
        assert(row@ == rv[r as int]);
        let mut k = 0usize;
        while k < row.len()
            invariant
                k <= row@.len() <= columns,
                r < rows@.len(),
                rv.len() == rows@.len(),
                row@ == rv[r as int],
                hints_short(row@),
                widths@.len() == columns,
                forall|i: int|
                    0 <= i < k ==> (#[trigger] widths@[i]) == col_width(rv.take(r + 1), i),
                forall|i: int|
                    k <= i < columns ==> (#[trigger] widths@[i]) == col_width(rv.take(r as int), i),
                forall|i: int| 0 <= i < columns ==> (#[trigger] widths@[i]) <= 65529,
            decreases row@.len() - k,
        {
            let hint = row[k];
            assert(hint_bounded(row@[k as int]));
            let w = hint_width(&hint);
            proof {
                lemma_col_width_step(rv, r as int, k as int);
            }
            if widths[k] < w {
                widths.set(k, w);
            }
            k += 1;
        }
        proof {
            assert forall|i: int| 0 <= i < columns implies (#[trigger] widths@[i]) == col_width(
                rv.take(r + 1),
                i,
            ) by {
                lemma_col_width_step(rv, r as int, i);
                lemma_col_width_nonneg(rv.take(r as int), i);
            }
        }
        r += 1;
    }
    assert(rv.take(rows@.len() as int) =~= rv);
    widths
}

proof fn lemma_seq_sum_bound(s: Seq<int>, b: int)
    requires
        b >= 0,
        forall|i: int| 0 <= i < s.len() ==> 0 <= #[trigger] s[i] <= b,
    ensures
        0 <= seq_sum(s) <= s.len() * b,
    decreases s.len(),
{
    if s.len() > 0 {
        lemma_seq_sum_bound(s.drop_last(), b);
        assert((s.len() - 1) * b + b == s.len() * b) by (nonlinear_arith);
    }
}

proof fn lemma_seq_sum_take_step(s: Seq<int>, j: int)
    requires
        0 <= j < s.len(),
    ensures
        seq_sum(s.take(j + 1)) == seq_sum(s.take(j)) + s[j],
{
    assert(s.take(j + 1).drop_last() =~= s.take(j));
}

/// The end of grid column `j` in closed form: the gaps so far, each widened,
/// plus the widths of the columns so far.
proof fn lemma_col_start_closed(widths: Seq<int>, base: int, rem: int, j: int)
    requires
        0 <= j < widths.len(),
        base >= 0,
        rem >= 0,
    ensures
        col_start(widths, base, rem, j) + widths[j] == 2 * (j + 1) + (j + 1) * base + (if rem
            <= j + 1 {
            rem
        } else {
            j + 1
        }) + seq_sum(widths.take(j + 1)),
    decreases j,
{
    lemma_seq_sum_take_step(widths, j);
    if j == 0 {
        assert(widths.take(0) =~= Seq::<int>::empty());
    } else {
        lemma_col_start_closed(widths, base, rem, j - 1);
        assert((j + 1) * base == j * base + base) by (nonlinear_arith);
    }
}

proof fn lemma_col_start_monotone(widths: Seq<int>, base: int, rem: int, j: int, m: int)
    requires
        0 <= j <= m < widths.len(),
        base >= 0,
        forall|i: int| 0 <= i < widths.len() ==> #[trigger] widths[i] >= 0,
    ensures
        col_start(widths, base, rem, j) + widths[j] <= col_start(widths, base, rem, m) + widths[m],
        j < m ==> col_start(widths, base, rem, j) + widths[j] + 2 <= col_start(
            widths,
            base,
            rem,
            j + 1,
        ),
    decreases m - j,
{
    if j < m {
        lemma_col_start_monotone(widths, base, rem, j + 1, m);
    }
}

/// Every hint of grid column `j` fits within the column's width.
proof fn lemma_hint_within_col_width(rows: Seq<Seq<Hint>>, r: int, j: int)
    requires
        0 <= r < rows.len(),
        0 <= j < rows[r].len(),
    ensures
        hint_w(rows[r][j]) <= col_width(rows, j),
    decreases rows.len(),
{
    if r < rows.len() - 1 {
        lemma_hint_within_col_width(rows.drop_last(), r, j);
    }
}

/// With each hint ending before the next column starts, a row's text ends
/// right after its last hint.
proof fn lemma_row_end_exact(col_x: Seq<u16>, row: Seq<Hint>, k: int)
    requires
        1 <= k <= row.len() <= col_x.len(),
        forall|i: int|
            0 <= i < row.len() - 1 ==> col_x[i] + hint_w(#[trigger] row[i]) <= col_x[i + 1],
    ensures
        row_text_upto(col_x, row, k).1 == col_x[k - 1] + hint_w(row[k - 1]),
    decreases k,
{
    if k > 1 {
        lemma_row_end_exact(col_x, row, k - 1);
        assert(col_x[k - 2] + hint_w(row[k - 2]) <= col_x[k - 1]);
    }
    let prev = row_text_upto(col_x, row, k - 1);
    assert(prev.1 <= col_x[k - 1]);
    assert(row_text_upto(col_x, row, k).1 == prev.1 + (col_x[k - 1] - prev.1) + hint_w(
        row[k - 1],
    ));
}

/// The sum of the column widths.
fn sum_widths(widths: &Vec<usize>) -> (total: usize)
    requires
        widths@.len() <= 32767,
        forall|j: int| 0 <= j < widths@.len() ==> #[trigger] widths@[j] <= 65529,
    ensures
        total == seq_sum(Seq::new(widths@.len(), |j: int| widths@[j] as int)),
        total <= widths@.len() * 65529,
{
    let ghost ws = Seq::new(widths@.len(), |j: int| widths@[j] as int);
    let mut total = 0usize;
    let mut j = 0usize;
    while j < widths.len()
        invariant
            j <= widths@.len() <= 32767,
            ws == Seq::new(widths@.len(), |j: int| widths@[j] as int),
            forall|i: int| 0 <= i < widths@.len() ==> #[trigger] widths@[i] <= 65529,
            total == seq_sum(ws.take(j as int)),
            total <= j * 65529,
        decreases widths@.len() - j,
    {
        proof {
            lemma_seq_sum_take_step(ws, j as int);
        }
        total += widths[j];
        j += 1;
    }
    assert(ws.take(widths@.len() as int) =~= ws);
    total
}

/// Lay the hints out as a column grid: pick a column count that fits, then
/// align every row to the same column x-positions (each hint left-aligned in
/// its column) so wrapped rows line up vertically. Leftover width is spread
/// across the gaps so the grid still fills the row.
pub fn rendered_hint_lines(hints: &[Hint], width: u16) -> (lines: Vec<RenderedHintLine>)
    requires
        hints_short(hints@),
    ensures
        lines@.len() == spec_rendered_hint_lines(hints@, width as int).len(),
        forall|r: int|
            0 <= r < lines@.len() ==> (#[trigger] lines@[r])@ == spec_rendered_hint_lines(
                hints@,
                width as int,
            )[r],
{
    if hints.len() == 0 {
        return Vec::new();
    }
    let fit = columns_that_fit(hints, width);
    let mut columns = fit;
    proof {
        lemma_chunks_rows(hints@, columns as int);
    }
    let mut rows = chunk_rows(hints, columns);
    proof {
        assert forall|r: int| 0 <= r < rows@.len() implies (#[trigger] rows@[r])@ == chunks(
            hints@,
            columns as int,
        )[r] by {
            assert(rows@[r]@ == rows_view(rows@)[r]);
        }
    }
    let mut widths = column_widths(&rows, columns);
    let mut total = sum_widths(&widths);
    while !(columns == 1 || total + (columns + 1) * HINT_MIN_GAP <= width as usize)
        invariant
            hints_short(hints@),
            hints@.len() > 0,
            1 <= columns <= fit <= hints@.len(),
            fit == spec_columns_that_fit(hints@, width as int),
            chosen_columns(hints@, width as int, fit as int) == chosen_columns(
                hints@,
                width as int,
                columns as int,
            ),
            rows_view(rows@) == chunks(hints@, columns as int),
            widths@.len() == columns,
            forall|j: int|
                0 <= j < columns ==> (#[trigger] widths@[j]) == col_width(rows_view(rows@), j),
            forall|j: int| 0 <= j < columns ==> (#[trigger] widths@[j]) <= 65529,
            total == seq_sum(Seq::new(widths@.len(), |j: int| widths@[j] as int)),
            total <= columns * 65529,
            fit <= 32767,
        decreases columns,
    {
        assert(Seq::new(widths@.len(), |j: int| widths@[j] as int) =~= col_widths(
            chunks(hints@, columns as int),
            columns as int,
        ));
        columns -= 1;
        proof {
            lemma_chunks_rows(hints@, columns as int);
        }
        rows = chunk_rows(hints, columns);
        proof {
            assert forall|r: int| 0 <= r < rows@.len() implies (#[trigger] rows@[r])@ == chunks(
                hints@,
                columns as int,
            )[r] by {
                assert(rows@[r]@ == rows_view(rows@)[r]);
            }
        }
        widths = column_widths(&rows, columns);
        total = sum_widths(&widths);
    }
    let ghost c = columns as int;
    let ghost rv = rows_view(rows@);
    let ghost cw = col_widths(rv, c);
    assert(Seq::new(widths@.len(), |j: int| widths@[j] as int) =~= cw);
    assert(chosen_columns(hints@, width as int, c) == c);
    let gap_count = columns + 1;
    let (base, remainder) = spread_gaps(width as usize, total, gap_count);
    proof {
        let extra = spread_extra(width as int, total as int, gap_count as int);
        vstd::arithmetic::div_mod::lemma_fundamental_div_mod(extra, gap_count as int);
        assert(0 <= base <= extra);
        assert(remainder < gap_count);
        assert(forall|i: int| 0 <= i < cw.len() ==> #[trigger] cw[i] >= 0);
        lemma_col_start_closed(cw, base as int, remainder as int, c - 1);
        assert(cw.take(c) =~= cw);
        assert(c * base + (if remainder <= c {
            remainder as int
        } else {
            c
        }) <= extra) by (nonlinear_arith)
            requires
                extra == (c + 1) * base + remainder,
                base >= 0,
                remainder >= 0,
        ;
        assert(col_start(cw, base as int, remainder as int, c - 1) + cw[c - 1] <= u16::MAX);
        assert forall|j: int| 0 <= j < c implies col_start(cw, base as int, remainder as int, j)
            + #[trigger] cw[j] <= u16::MAX by {
            lemma_col_start_monotone(cw, base as int, remainder as int, j, c - 1);
        }
    }
    let mut col_x: Vec<u16> = Vec::new();
    let mut x = 0usize;
    let mut index = 0usize;
    while index < columns
        invariant
            index <= columns,
            c == columns,
            cw == col_widths(rv, c),
            widths@.len() == columns,
            forall|j: int| 0 <= j < columns ==> (#[trigger] widths@[j]) == cw[j],
            forall|j: int| 0 <= j < c ==> #[trigger] cw[j] >= 0,
            base <= u16::MAX,
            forall|j: int|
                0 <= j < c ==> col_start(cw, base as int, remainder as int, j) + #[trigger] cw[j]
                    <= u16::MAX,
            col_x@.len() == index,
            forall|j: int|
                0 <= j < index ==> (#[trigger] col_x@[j]) == col_start(
                    cw,
                    base as int,
                    remainder as int,
                    j,
                ),
            index == 0 ==> x == 0,
            index > 0 ==> x == col_start(cw, base as int, remainder as int, index - 1)
                + cw[index - 1],
        decreases columns - index,
    {
        let step = if index < remainder {
            HINT_MIN_GAP + base + 1
        } else {
            HINT_MIN_GAP + base
        };
        x += step;
        assert(x == col_start(cw, base as int, remainder as int, index as int));
        col_x.push(clamp_u16(x));
        x += widths[index];
        index += 1;
    }
    proof {
        let extra = spread_extra(width as int, total as int, gap_count as int);
        assert(base == extra / (c + 1));
        assert(remainder == extra % (c + 1));
        assert(col_x@ =~= col_positions(hints@, width as int, c));
        lemma_chunks_rows(hints@, c);
    }
    let mut lines: Vec<RenderedHintLine> = Vec::new();
    let mut r = 0usize;
    while r < rows.len()
        invariant
            r <= rows@.len(),
            rv == rows_view(rows@),
            rv == chunks(hints@, c),
            c == columns,
            hints_short(hints@),
            col_x@ == col_positions(hints@, width as int, c),
            col_x@.len() == c,
            cw == col_widths(rv, c),
            forall|j: int|
                0 <= j < c ==> (#[trigger] col_x@[j]) == col_start(
                    cw,
                    base as int,
                    remainder as int,
                    j,
                ),
            forall|j: int| 0 <= j < c ==> #[trigger] cw[j] >= 0,
            forall|j: int|
                0 <= j < c ==> col_start(cw, base as int, remainder as int, j) + #[trigger] cw[j]
                    <= u16::MAX,
            forall|r2: int| 0 <= r2 < rv.len() ==> 1 <= (#[trigger] rv[r2]).len() <= c,
            forall|r2: int| 0 <= r2 < rv.len() ==> hints_short(#[trigger] rv[r2]),
            lines@.len() == r,
            forall|r2: int| 0 <= r2 < r ==> (#[trigger] lines@[r2])@ == grid_row(col_x@, rv[r2]),
        decreases rows@.len() - r,
    {
        let row = &rows[r];
        proof {
            let hs = rv[r as int];
            assert(row@ == hs);
            let n = hs.len() as int;
            assert forall|i: int| 0 <= i < n - 1 implies col_x@[i] + hint_w(#[trigger] hs[i])
                <= col_x@[i + 1] by {
                lemma_hint_within_col_width(rv, r as int, i);
                lemma_col_start_monotone(cw, base as int, remainder as int, i, i + 1);
            }
            lemma_row_end_exact(col_x@, hs, n);
            lemma_hint_within_col_width(rv, r as int, n - 1);
            assert(cw[n - 1] == col_width(rv, n - 1));
            assert(row_text_upto(col_x@, hs, n).1 <= u16::MAX);
        }
        let line = build_grid_row(col_x.as_slice(), row.as_slice());
        lines.push(line);
        r += 1;
    }
    lines
}

/// Every placement of every rendered row is a bounded hint.
pub proof fn lemma_rendered_placements_bounded(hints: Seq<Hint>, width: int)
    requires
        hints_short(hints),
    ensures
        forall|r: int|
            0 <= r < spec_rendered_hint_lines(hints, width).len() ==> placements_bounded(
                (#[trigger] spec_rendered_hint_lines(hints, width)[r]).1,
            ),
{
    if hints.len() > 0 {
        let c = chosen_columns(hints, width, spec_columns_that_fit(hints, width));
        lemma_columns_that_fit_positive(hints, width);
        lemma_chosen_columns_positive(hints, width, spec_columns_that_fit(hints, width));
        lemma_chunks_rows(hints, c);
        let rows = chunks(hints, c);
        assert forall|r: int|
            0 <= r < spec_rendered_hint_lines(hints, width).len() implies placements_bounded(
            (#[trigger] spec_rendered_hint_lines(hints, width)[r]).1,
        ) by {
            assert(hints_short(rows[r]));
        }
    }
}

proof fn lemma_greedy_from_ge(hints: Seq<Hint>, width: int, k: int)
    requires
        k >= 0,
    ensures
        greedy_from(hints, width, k) >= k,
        k <= hints.len() ==> greedy_from(hints, width, k) <= hints.len(),
    decreases hints.len() - k,
{
    if 0 <= k < hints.len() && fit_cost(hints, k + 1) <= width {
        lemma_greedy_from_ge(hints, width, k + 1);
    }
}

proof fn lemma_columns_that_fit_positive(hints: Seq<Hint>, width: int)
    ensures
        spec_columns_that_fit(hints, width) >= 1,
{
    if hints.len() > 0 {
        lemma_greedy_from_ge(hints, width, 1);
    }
}

proof fn lemma_chosen_columns_positive(hints: Seq<Hint>, width: int, c: int)
    requires
        c >= 1,
    ensures
        1 <= chosen_columns(hints, width, c) <= c,
    decreases c,
{
    if c > 1 && !grid_fits(hints, c, width) {
        lemma_chosen_columns_positive(hints, width, c - 1);
    }
}

/// The hints of `rows`, row after row.
pub open spec fn concat_rows(rows: Seq<Seq<Hint>>) -> Seq<Hint>
    decreases rows.len(),
{
    if rows.len() == 0 {
        Seq::empty()
    } else {
        rows[0] + concat_rows(rows.skip(1))
    }
}

/// The hints of a row's placements, left to right.
pub open spec fn row_hints(placements: Seq<(u16, Hint)>) -> Seq<Hint> {
    placements.map_values(|p: (u16, Hint)| p.1)
}

/// The hints a rendered grid places, row after row, left to right.
pub open spec fn placed_hints(lines: Seq<(Seq<char>, Seq<(u16, Hint)>)>) -> Seq<Hint> {
    concat_rows(Seq::new(lines.len(), |r: int| row_hints(lines[r].1)))
}

proof fn lemma_concat_chunks(hints: Seq<Hint>, c: int)
    requires
        c >= 1,
    ensures
        concat_rows(chunks(hints, c)) == hints,
    decreases hints.len(),
{
    assert(concat_rows(Seq::<Seq<Hint>>::empty()) =~= Seq::<Hint>::empty());
    if hints.len() == 0 {
        assert(hints =~= Seq::<Hint>::empty());
    } else if hints.len() <= c {
        let rows = chunks(hints, c);
        assert(rows =~= seq![hints]);
        assert(rows.skip(1) =~= Seq::<Seq<Hint>>::empty());
        assert(hints + Seq::<Hint>::empty() =~= hints);
    } else {
        lemma_concat_chunks(hints.skip(c), c);
        let rows = chunks(hints, c);
        assert(rows.skip(1) =~= chunks(hints.skip(c), c));
        assert(hints.take(c) + hints.skip(c) =~= hints);
    }
}

/// The grid lays out every hint exactly once, in order: reading its rows left
/// to right and top to bottom gives back the hint list.
pub proof fn lemma_grid_places_every_hint_once_in_order(hints: Seq<Hint>, width: int)
    ensures
        placed_hints(spec_rendered_hint_lines(hints, width)) == hints,
{
    let lines = spec_rendered_hint_lines(hints, width);
    if hints.len() == 0 {
        assert(Seq::new(lines.len(), |r: int| row_hints(lines[r].1)) =~= Seq::<Seq<Hint>>::empty());
    } else {
        let c = chosen_columns(hints, width, spec_columns_that_fit(hints, width));
        lemma_columns_that_fit_positive(hints, width);
        lemma_chosen_columns_positive(hints, width, spec_columns_that_fit(hints, width));
        lemma_chunks_rows(hints, c);
        let rows = chunks(hints, c);
        let col_x = col_positions(hints, width, c);
        assert forall|r: int| 0 <= r < rows.len() implies #[trigger] row_hints(lines[r].1) =~= rows[r] by {
            assert(lines[r] == grid_row(col_x, rows[r]));
        }
        assert(Seq::new(lines.len(), |r: int| row_hints(lines[r].1)) =~= rows);
        lemma_concat_chunks(hints, c);
    }
}

/// Once a placement covers `rel` and none before it does, it is the one found.
proof fn lemma_first_covering_at(placements: Seq<(u16, Hint)>, rel: int, i: int, j: int)
    requires
        0 <= i <= j < placements.len(),
        placement_covers(placements[j], rel),
        forall|m: int| i <= m < j ==> !placement_covers(#[trigger] placements[m], rel),
    ensures
        first_covering(placements, rel, i) == Some(placements[j].1.id),
    decreases j - i,
{
    if i < j {
        lemma_first_covering_at(placements, rel, i + 1, j);
    }
}

/// Every column starts at least two cells in.
proof fn lemma_col_start_at_least_two(widths: Seq<int>, base: int, rem: int, j: int)
    requires
        0 <= j < widths.len(),
        base >= 0,
        forall|m: int| 0 <= m < widths.len() ==> #[trigger] widths[m] >= 0,
    ensures
        col_start(widths, base, rem, j) >= 2,
    decreases j,
{
    if j > 0 {
        lemma_col_start_at_least_two(widths, base, rem, j - 1);
    }
}

/// A column ends, with at least a two-cell gap, before any later column starts.
proof fn lemma_col_start_gap(widths: Seq<int>, base: int, rem: int, i: int, j: int)
    requires
        0 <= i < j < widths.len(),
        base >= 0,
        forall|m: int| 0 <= m < widths.len() ==> #[trigger] widths[m] >= 0,
    ensures
        col_start(widths, base, rem, i) + widths[i] + 2 <= col_start(widths, base, rem, j),
    decreases j - i,
{
    if j == i + 1 {
        lemma_col_start_monotone(widths, base, rem, i, j);
    } else {
        lemma_col_start_gap(widths, base, rem, i, j - 1);
    }
}

/// Clicking any cell of a drawn hint routes to that hint's id: for the `j`th
/// hint of grid row `r`, every column it spans (on the row the grid draws it
/// on) resolves to its id, as long as the hint ends inside the `u16` columns.
pub proof fn lemma_clicking_a_hint_routes_to_its_id(
    hints: Seq<Hint>,
    width: int,
    origin_x: int,
    origin_y: int,
    r: int,
    j: int,
    k: int,
)
    requires
        0 <= r < spec_rendered_hint_lines(hints, width).len(),
        0 <= j < spec_rendered_hint_lines(hints, width)[r].1.len(),
        0 <= k < hint_w(spec_rendered_hint_lines(hints, width)[r].1[j].1),
        spec_rendered_hint_lines(hints, width)[r].1[j].0 + hint_w(
            spec_rendered_hint_lines(hints, width)[r].1[j].1,
        ) <= u16::MAX,
        origin_x >= 0,
        origin_y >= 0,
    ensures
        spec_hint_id_at_wrapped(
            hints,
            origin_x,
            origin_y,
            width,
            origin_x + spec_rendered_hint_lines(hints, width)[r].1[j].0 + k,
            origin_y + r,
        ) == Some(spec_rendered_hint_lines(hints, width)[r].1[j].1.id),
{
    let lines = spec_rendered_hint_lines(hints, width);
    let c = chosen_columns(hints, width, spec_columns_that_fit(hints, width));
    lemma_columns_that_fit_positive(hints, width);
    lemma_chosen_columns_positive(hints, width, spec_columns_that_fit(hints, width));
    lemma_chunks_rows(hints, c);
    let rows = chunks(hints, c);
    let widths = col_widths(rows, c);
    let gaps = c + 1;
    let extra = spread_extra(width, seq_sum(widths), gaps);
    let base = extra / gaps;
    let rem = extra % gaps;
    let col_x = col_positions(hints, width, c);
    let placements = lines[r].1;
    assert(lines[r] == grid_row(col_x, rows[r]));
    assert(rows[r].len() <= c);
    assert forall|m: int| 0 <= m < widths.len() implies #[trigger] widths[m] >= 0 by {
        lemma_col_width_nonneg(rows, m);
    }
    assert(extra >= 0);
    assert(base >= 0) by (nonlinear_arith)
        requires
            extra >= 0,
            gaps > 0,
            base == extra / gaps,
    ;
    let rel = placements[j].0 + k;
    let start_j = col_start(widths, base, rem, j);
    assert(placements[j] == (col_x[j], rows[r][j]));
    assert(col_x[j] == clamp16(start_j));
    lemma_col_start_at_least_two(widths, base, rem, j);
    assert(start_j <= u16::MAX);
    assert(placements[j].0 == start_j);
    assert(placement_covers(placements[j], rel));
    assert forall|m: int| 0 <= m < j implies !placement_covers(#[trigger] placements[m], rel) by {
        lemma_col_start_gap(widths, base, rem, m, j);
        lemma_col_start_at_least_two(widths, base, rem, m);
        lemma_hint_within_col_width(rows, r, m);
        assert(placements[m] == (col_x[m], rows[r][m]));
        assert(col_x[m] == clamp16(col_start(widths, base, rem, m)));
        assert(widths[m] == col_width(rows, m));
    }
    lemma_first_covering_at(placements, rel, 0, j);
}

/// Every hint's width is its character count (as it is for printable ASCII
/// text), so character positions and columns agree.
pub open spec fn widths_are_lengths(hints: Seq<Hint>) -> bool {
    forall|i: int| 0 <= i < hints.len() ==> hint_w(#[trigger] hints[i]) == hint_text(hints[i]).len()
}

/// With non-overlapping columns and widths that are character counts, a row's
/// text is as long as its end column and holds each hint's text at the
/// hint's column start.
proof fn lemma_row_text_places_hints(col_x: Seq<u16>, row: Seq<Hint>, k: int)
    requires
        0 <= k <= row.len() <= col_x.len(),
        forall|i: int|
            0 <= i < row.len() - 1 ==> col_x[i] + hint_w(#[trigger] row[i]) <= col_x[i + 1],
        widths_are_lengths(row),
    ensures
        row_text_upto(col_x, row, k).0.len() == row_text_upto(col_x, row, k).1,
        forall|i: int|
            0 <= i < k ==> col_x[i] + hint_text(#[trigger] row[i]).len() <= row_text_upto(
                col_x,
                row,
                k,
            ).1,
        forall|i: int|
            0 <= i < k ==> row_text_upto(col_x, row, k).0.subrange(
                col_x[i] as int,
                col_x[i] + hint_text(#[trigger] row[i]).len(),
            ) == hint_text(row[i]),
    decreases k,
{
    if k > 0 {
        lemma_row_text_places_hints(col_x, row, k - 1);
        let prev = row_text_upto(col_x, row, k - 1);
        if k > 1 {
            lemma_row_end_exact(col_x, row, k - 1);
            assert(col_x[k - 2] + hint_w(row[k - 2]) <= col_x[k - 1]);
        }
        assert(prev.1 <= col_x[k - 1]);
        let pad = col_x[k - 1] - prev.1;
        let h = hint_text(row[k - 1]);
        let t = prev.0 + repeat_char(' ', pad as nat) + h;
        assert(hint_w(row[k - 1]) == h.len());
        assert(row_text_upto(col_x, row, k).0 == t);
        assert(row_text_upto(col_x, row, k).1 == col_x[k - 1] + h.len());
        assert(t.subrange(col_x[k - 1] as int, col_x[k - 1] + h.len()) =~= h);
        assert forall|i: int| 0 <= i < k - 1 implies t.subrange(
            col_x[i] as int,
            col_x[i] + hint_text(#[trigger] row[i]).len(),
        ) == hint_text(row[i]) by {
            assert(t.subrange(col_x[i] as int, col_x[i] + hint_text(row[i]).len())
                =~= prev.0.subrange(col_x[i] as int, col_x[i] + hint_text(row[i]).len()));
        }
    }
}

/// Each hint is clickable where it is drawn: where every hint's width is its
/// character count, the `j`th hint of grid row `r` is drawn in the row's
/// text from its placement column on, and a click at any character of that
/// text (on the row the grid draws it on) routes to the hint's id, as long
/// as the row ends inside the `u16` columns.
pub proof fn lemma_hint_clickable_where_drawn(
    hints: Seq<Hint>,
    width: int,
    origin_x: int,
    origin_y: int,
    r: int,
    j: int,
    k: int,
)
    requires
        widths_are_lengths(hints),
        0 <= r < spec_rendered_hint_lines(hints, width).len(),
        0 <= j < spec_rendered_hint_lines(hints, width)[r].1.len(),
        0 <= k < hint_text(spec_rendered_hint_lines(hints, width)[r].1[j].1).len(),
        forall|m: int|
            0 <= m < spec_rendered_hint_lines(hints, width)[r].1.len() ==> (#[trigger]
            spec_rendered_hint_lines(hints, width)[r].1[m]).0 + hint_w(
                spec_rendered_hint_lines(hints, width)[r].1[m].1,
            ) <= u16::MAX,
        origin_x >= 0,
        origin_y >= 0,
    ensures
        ({
            let line = spec_rendered_hint_lines(hints, width)[r];
            let (start, hint) = line.1[j];
            &&& start + hint_text(hint).len() <= line.0.len()
            &&& line.0.subrange(start as int, start + hint_text(hint).len()) == hint_text(hint)
            &&& line.0[start + k] == hint_text(hint)[k]
            &&& spec_hint_id_at_wrapped(
                hints,
                origin_x,
                origin_y,
                width,
                origin_x + start + k,
                origin_y + r,
            ) == Some(hint.id)
        }),
{
    let lines = spec_rendered_hint_lines(hints, width);
    let c = chosen_columns(hints, width, spec_columns_that_fit(hints, width));
    lemma_columns_that_fit_positive(hints, width);
    lemma_chosen_columns_positive(hints, width, spec_columns_that_fit(hints, width));
    lemma_chunks_rows(hints, c);
    let rows = chunks(hints, c);
    let row = rows[r];
    let widths = col_widths(rows, c);
    let gaps = c + 1;
    let extra = spread_extra(width, seq_sum(widths), gaps);
    let base = extra / gaps;
    let rem = extra % gaps;
    let col_x = col_positions(hints, width, c);
    let n = row.len() as int;
    assert(lines[r] == grid_row(col_x, row));
    assert(n <= c);
    assert forall|m: int| 0 <= m < widths.len() implies #[trigger] widths[m] >= 0 by {
        lemma_col_width_nonneg(rows, m);
    }
    assert(extra >= 0);
    assert(base >= 0) by (nonlinear_arith)
        requires
            extra >= 0,
            gaps > 0,
            base == extra / gaps,
    ;
    lemma_chunks_widths_are_lengths(hints, c);
    assert(widths_are_lengths(row));
    assert forall|m: int| 0 <= m < n implies col_x[m] == col_start(widths, base, rem, m) by {
        assert(lines[r].1[m] == (col_x[m], row[m]));
        assert(lines[r].1[m].0 + hint_w(lines[r].1[m].1) <= u16::MAX);
        assert(hint_w(row[m]) == hint_text(row[m]).len());
        assert(hint_text(row[m]).len() >= 3);
        lemma_col_start_at_least_two(widths, base, rem, m);
    }
    assert forall|i: int| 0 <= i < n - 1 implies col_x[i] + hint_w(#[trigger] row[i]) <= col_x[i + 1] by {
        lemma_col_start_gap(widths, base, rem, i, i + 1);
        lemma_hint_within_col_width(rows, r, i);
    }
    lemma_row_text_places_hints(col_x, row, n);
    let (start, hint) = lines[r].1[j];
    assert(lines[r].1[j] == (col_x[j], row[j]));
    assert(col_x[j] + hint_text(row[j]).len() <= row_text_upto(col_x, row, n).1);
    assert(lines[r].0.subrange(start as int, start + hint_text(hint).len())[k] == lines[r].0[start + k]);
    lemma_clicking_a_hint_routes_to_its_id(hints, width, origin_x, origin_y, r, j, k);
}

/// Rows the hint grid occupies: at least one.
pub open spec fn spec_hint_height(hints: Seq<Hint>, width: int) -> u16 {
    let rows = spec_rendered_hint_lines(hints, width).len() as int;
    clamp16(if rows >= 1 {
        rows
    } else {
        1
    })
}

/// The rows a hint grid occupies, at least one.
pub fn hint_height(hints: &[Hint], width: u16) -> (height: u16)
    requires
        hints_short(hints@),
    ensures
        height == spec_hint_height(hints@, width as int),
{
    let lines = rendered_hint_lines(hints, width);
    let rows = if lines.len() >= 1 {
        lines.len()
    } else {
        1
    };
    clamp_u16(rows)
}

/// Texts joined by newlines.
pub open spec fn join_lines(texts: Seq<Seq<char>>) -> Seq<char>
    decreases texts.len(),
{
    if texts.len() == 0 {
        Seq::empty()
    } else if texts.len() == 1 {
        texts[0]
    } else {
        join_lines(texts.drop_last()) + seq!['\n'] + texts.last()
    }
}

/// The texts of the rendered rows.
pub open spec fn line_texts(lines: Seq<(Seq<char>, Seq<(u16, Hint)>)>) -> Seq<Seq<char>> {
    lines.map_values(|line: (Seq<char>, Seq<(u16, Hint)>)| line.0)
}

/// The rows' texts joined by newlines.
pub fn join_rendered_texts(lines: &Vec<RenderedHintLine>) -> (text: String)
    ensures
        text@ == join_lines(line_texts(lines@.map_values(|l: RenderedHintLine| l@))),
{
    let ghost views = lines@.map_values(|l: RenderedHintLine| l@);
    let mut text = String::new();
    let mut i = 0usize;
    while i < lines.len()
        invariant
            i <= lines@.len(),
            views == lines@.map_values(|l: RenderedHintLine| l@),
            text@ == join_lines(line_texts(views.take(i as int))),
        decreases lines@.len() - i,
    {
        if i > 0 {
            text.append("\n");
        }
        text.append(lines[i].text.as_str());
        proof {
            reveal_strlit("\n");
            let prev = line_texts(views.take(i as int));
            let next = line_texts(views.take(i + 1));
            assert(next.drop_last() =~= prev);
            assert(next.last() == lines@[i as int].text@);
            if i == 0 {
                assert(prev =~= Seq::<Seq<char>>::empty());
            }
        }
        i += 1;
        assert(text@ =~= join_lines(line_texts(views.take(i as int))));
    }
    assert(views.take(lines@.len() as int) =~= views);
    text
}

/// The hint grid's rows joined by newlines, for locating hints by text.
pub fn hint_grid_text(hints: &[Hint], width: u16) -> (text: String)
    requires
        hints_short(hints@),
    ensures
        text@ == join_lines(line_texts(spec_rendered_hint_lines(hints@, width as int))),
{
    let lines = rendered_hint_lines(hints, width);
    let text = join_rendered_texts(&lines);
    assert(lines@.map_values(|l: RenderedHintLine| l@) =~= spec_rendered_hint_lines(
        hints@,
        width as int,
    ));
    text
}

/// The hint under `(col, row)` of a grid drawn from `(origin_x, origin_y)`.
pub open spec fn spec_hint_id_at_wrapped(
    hints: Seq<Hint>,
    origin_x: int,
    origin_y: int,
    width: int,
    col: int,
    row: int,
) -> Option<HintId> {
    let lines = spec_rendered_hint_lines(hints, width);
    if row < origin_y || row - origin_y >= lines.len() {
        None
    } else {
        spec_placement_at(lines[row - origin_y].1, origin_x, col)
    }
}

/// The hint under `(col, row)` of a hint grid drawn with its top-left cell at
/// `(origin_x, origin_y)`, or `None` between hints and outside the grid.
pub fn hint_id_at_wrapped(
    hints: &[Hint],
    origin_x: u16,
    origin_y: u16,
    width: u16,
    col: u16,
    row: u16,
) -> (id: Option<HintId>)
    requires
        hints_short(hints@),
    ensures
        id == spec_hint_id_at_wrapped(
            hints@,
            origin_x as int,
            origin_y as int,
            width as int,
            col as int,
            row as int,
        ),
{
    if row < origin_y {
        return None;
    }
    let relative_row = (row - origin_y) as usize;
    let lines = rendered_hint_lines(hints, width);
    if relative_row >= lines.len() {
        return None;
    }
    proof {
        lemma_rendered_placements_bounded(hints@, width as int);
        assert(lines@[relative_row as int]@ == spec_rendered_hint_lines(hints@, width as int)[
            relative_row as int]);
    }
    placement_at(lines[relative_row].placements.as_slice(), origin_x, col)
}


proof fn lemma_chunks_count(hints: Seq<Hint>, c: int)
    ensures
        chunks(hints, c).len() <= hints.len(),
    decreases hints.len(),
{
    if hints.len() > 0 && c > 0 && hints.len() > c {
        lemma_chunks_count(hints.skip(c), c);
    }
}

/// A hint grid takes at most one row per hint, and at least one row.
pub proof fn lemma_hint_height_at_most_hints(hints: Seq<Hint>, width: int)
    ensures
        1 <= spec_hint_height(hints, width) <= (if hints.len() > 1 { hints.len() as int } else { 1 }),
{
    if hints.len() > 0 {
        let c = chosen_columns(hints, width, spec_columns_that_fit(hints, width));
        lemma_chunks_count(hints, c);
    }
}

} // verus!
