//! The mood bar: a -5…+5 score drawn as a centered bar whose fill grows left
//! for a negative mood and right for a positive one.
use vstd::prelude::*;

verus! {

/// What one cell of the mood bar shows.
#[derive(Clone, Copy, Debug, PartialEq, Eq, Structural)]
pub enum MoodCell {
    /// The center of a bar whose score is exactly zero (the heavy mark).
    ZeroMark,
    /// The center of a bar with a nonzero score.
    Center,
    /// Part of the filled span on the score's side.
    Filled,
    /// Empty track.
    Track,
}

/// The pole label left of the full-width bar.
pub const MOOD_LOW_LABEL: &'static str = "Miserable ";

/// The pole label right of the full-width bar.
pub const MOOD_HIGH_LABEL: &'static str = " Blissful";

/// Columns the two pole labels take together.
pub const MOOD_LABELS_WIDTH: u16 = 19;

/// A mood score to draw as a bar.
pub struct MoodBar {
    score: i8,
}

pub open spec fn magnitude(score: int, negative: bool) -> int {
    if negative {
        if score < 0 { -score } else { 0 }
    } else {
        if score > 0 { score } else { 0 }
    }
}

/// Filled cells on one side `side_width` wide for a `magnitude` of 0..5: the
/// magnitude mapped across the side, at least one cell for any nonzero mood,
/// never more than the side holds.
pub open spec fn filled_cells(magnitude: int, side_width: int) -> int {
    if side_width > 0 && magnitude > 0 {
        let scaled = magnitude * side_width / 5;
        let at_least_one = if scaled < 1 { 1 } else { scaled };
        if at_least_one < side_width { at_least_one } else { side_width }
    } else {
        0
    }
}

/// The cell at column `i` of a bar `width` wide for `score`.
pub open spec fn mood_cell(width: int, score: int, i: int) -> MoodCell {
    let center = width / 2;
    let left = filled_cells(magnitude(score, true), center);
    let right = filled_cells(magnitude(score, false), width - center - 1);
    if i == center {
        if score == 0 { MoodCell::ZeroMark } else { MoodCell::Center }
    } else if i < center {
        if center - i <= left { MoodCell::Filled } else { MoodCell::Track }
    } else {
        if i - center <= right { MoodCell::Filled } else { MoodCell::Track }
    }
}

/// The bar's cells, left to right; nothing below three columns.
pub open spec fn spec_mood_cells(width: int, score: int) -> Seq<MoodCell> {
    if width < 3 {
        seq![]
    } else {
        Seq::new(width as nat, |i: int| mood_cell(width, score, i))
    }
}

impl MoodBar {
    pub closed spec fn score(self) -> int {
        self.score as int
    }

    pub fn new(score: i8) -> (bar: Self)
        ensures
            bar.score() == score,
    {
        Self { score }
    }

    /// The bar's cells at `width` columns: the center marks zero (heavy) or
    /// the neutral point, and the fill runs outward from it on the score's
    /// side, its length the mood's magnitude out of five times the side's
    /// width (at least one cell for any nonzero mood).
    pub fn cells(&self, width: u16) -> (cells: Vec<MoodCell>)
        ensures
            cells@ == spec_mood_cells(width as int, self.score()),
    {
        let w = width as usize;
        let mut cells: Vec<MoodCell> = Vec::new();
        if w < 3 {
            return cells;
        }
        let center = w / 2;
        let lw = center;
        let rw = w - center - 1;
        let neg: usize = if self.score < 0 {
            (0 - (self.score as i16)) as usize
        } else {
            0
        };
        let pos: usize = if self.score > 0 {
            self.score as usize
        } else {
            0
        };
        let filled_left = side_fill(neg, lw);
        let filled_right = side_fill(pos, rw);
        let mut i: usize = 0;
        while i < w
            invariant
                w == width,
                w >= 3,
                center == w / 2,
                filled_left == filled_cells(magnitude(self.score as int, true), center as int),
                filled_right == filled_cells(magnitude(self.score as int, false), (w - center - 1) as int),
                i <= w,
                cells@ == Seq::new(i as nat, |k: int| mood_cell(w as int, self.score as int, k)),
            decreases w - i,
        {
            let cell = if i == center {
                if self.score == 0 {
                    MoodCell::ZeroMark
                } else {
                    MoodCell::Center
                }
            } else if i < center {
                if center - i <= filled_left {
                    MoodCell::Filled
                } else {
                    MoodCell::Track
                }
            } else {
                if i - center <= filled_right {
                    MoodCell::Filled
                } else {
                    MoodCell::Track
                }
            };
            cells.push(cell);
            i += 1;
            assert(cells@ =~= Seq::new(i as nat, |k: int| mood_cell(w as int, self.score as int, k)));
        }
        cells
    }
}

fn side_fill(magnitude: usize, side_width: usize) -> (filled: usize)
    requires
        magnitude <= 128,
        side_width <= u16::MAX,
    ensures
        filled == filled_cells(magnitude as int, side_width as int),
{
    if side_width > 0 && magnitude > 0 {
        assert(magnitude * side_width <= 128 * 65535) by (nonlinear_arith)
            requires magnitude <= 128, side_width <= 65535;
        let scaled = magnitude * side_width / 5;
        let at_least_one = if scaled < 1 {
            1
        } else {
            scaled
        };
        if at_least_one < side_width {
            at_least_one
        } else {
            side_width
        }
    } else {
        0
    }
}

/// The mood row: whether the pole labels flank the bar, and the bar's width —
/// the row less the labels when there is room for at least a four-cell bar,
/// the whole row otherwise.
pub fn mood_row_layout(width: u16) -> (layout: (bool, u16))
    ensures
        layout == (if width > MOOD_LABELS_WIDTH + 3 {
            (true, (width - MOOD_LABELS_WIDTH) as u16)
        } else {
            (false, width)
        }),
{
    if width > MOOD_LABELS_WIDTH + 3 {
        (true, width - MOOD_LABELS_WIDTH)
    } else {
        (false, width)
    }
}

/// The bar shows the mood's sign: a negative mood fills the cell just left of
/// the center and nothing right of it, a positive mood the mirror image, and
/// a zero mood fills nothing and marks its center heavy.
pub proof fn lemma_mood_bar_shows_the_sign(width: int, score: int)
    requires
        3 <= width <= u16::MAX,
        -128 <= score <= 127,
    ensures
        ({
            let cells = spec_mood_cells(width, score);
            let center = width / 2;
            &&& cells.len() == width
            &&& score < 0 ==> cells[center - 1] == MoodCell::Filled && forall|i: int|
                center < i < width ==> #[trigger] cells[i] == MoodCell::Track
            &&& score > 0 ==> cells[center + 1] == MoodCell::Filled && forall|i: int|
                0 <= i < center ==> #[trigger] cells[i] == MoodCell::Track
            &&& score == 0 ==> cells[center] == MoodCell::ZeroMark && forall|i: int|
                0 <= i < width ==> #[trigger] cells[i] != MoodCell::Filled
        }),
{
    let center = width / 2;
    assert(center >= 1);
    assert(width - center - 1 >= 1);
}

/// More mood fills more: on either side, a larger magnitude never fills fewer
/// cells.
pub proof fn lemma_mood_fill_grows_with_magnitude(a: int, b: int, side_width: int)
    requires
        0 <= a <= b,
        side_width >= 0,
    ensures
        filled_cells(a, side_width) <= filled_cells(b, side_width),
{
    if side_width > 0 && a > 0 {
        assert(a * side_width <= b * side_width) by (nonlinear_arith)
            requires a <= b, side_width >= 0;
        assert(a * side_width / 5 <= b * side_width / 5) by (nonlinear_arith)
            requires a * side_width <= b * side_width;
    }
}


/// The fill is the mood's magnitude out of five of the side's width: a
/// positive score `s` fills cell `d` right of the center exactly when it is
/// the first (every nonzero mood shows) or `5 * d` is at most `s` times the
/// right side's width; a negative score the mirror image on the left side.
/// So a score of five or more fills the whole side.
pub proof fn lemma_mood_fill_is_proportional(width: int, score: int)
    requires
        3 <= width <= u16::MAX,
        -128 <= score <= 127,
    ensures
        ({
            let cells = spec_mood_cells(width, score);
            let center = width / 2;
            let right_width = width - center - 1;
            &&& forall|d: int| 1 <= d <= right_width ==> (#[trigger] cells[center + d] == MoodCell::Filled
                <==> score > 0 && (d == 1 || 5 * d <= score * right_width))
            &&& forall|d: int| 1 <= d <= center ==> (#[trigger] cells[center - d] == MoodCell::Filled
                <==> score < 0 && (d == 1 || 5 * d <= -score * center))
            &&& score >= 5 ==> forall|i: int| center < i < width ==> #[trigger] cells[i] == MoodCell::Filled
            &&& score <= -5 ==> forall|i: int| 0 <= i < center ==> #[trigger] cells[i] == MoodCell::Filled
        }),
{
    let center = width / 2;
    let rw = width - center - 1;
    assert(center >= 1 && rw >= 1);
    assert forall|d: int| 1 <= d <= rw implies (#[trigger] spec_mood_cells(width, score)[center + d]
        == MoodCell::Filled <==> score > 0 && (d == 1 || 5 * d <= score * rw)) by {
        if score > 0 {
            lemma_fill_reaches(score, rw, d);
        }
    }
    assert forall|d: int| 1 <= d <= center implies (#[trigger] spec_mood_cells(width, score)[center - d]
        == MoodCell::Filled <==> score < 0 && (d == 1 || 5 * d <= -score * center)) by {
        if score < 0 {
            lemma_fill_reaches(-score, center, d);
        }
    }
    if score >= 5 {
        assert forall|i: int| center < i < width implies #[trigger] spec_mood_cells(width, score)[i]
            == MoodCell::Filled by {
            lemma_fill_reaches(score, rw, i - center);
            assert(5 * (i - center) <= score * rw) by (nonlinear_arith)
                requires score >= 5, 1 <= i - center <= rw;
        }
    }
    if score <= -5 {
        assert forall|i: int| 0 <= i < center implies #[trigger] spec_mood_cells(width, score)[i]
            == MoodCell::Filled by {
            lemma_fill_reaches(-score, center, center - i);
            assert(5 * (center - i) <= -score * center) by (nonlinear_arith)
                requires -score >= 5, 1 <= center - i <= center;
        }
    }
}

/// Cell `d` of a side is inside the fill exactly when it is the first or
/// `5 * d` is at most the magnitude times the side's width.
proof fn lemma_fill_reaches(magnitude: int, side_width: int, d: int)
    requires
        magnitude > 0,
        1 <= d <= side_width,
    ensures
        d <= filled_cells(magnitude, side_width) <==> (d == 1 || 5 * d <= magnitude * side_width),
{
    let x = magnitude * side_width;
    assert(x >= 0) by (nonlinear_arith)
        requires magnitude > 0, side_width >= 1, x == magnitude * side_width;
    assert(d <= x / 5 <==> 5 * d <= x) by (nonlinear_arith)
        requires x >= 0, d >= 1;
}

/// The bar is mirror-symmetric in the score: on a bar of odd width (equal
/// sides), cell `d` right of the center is filled for `score` exactly when
/// cell `d` left of it is filled for `-score`.
pub proof fn lemma_mood_bar_mirrors(width: int, score: int)
    requires
        3 <= width <= u16::MAX,
        width % 2 == 1,
        -127 <= score <= 127,
    ensures
        forall|d: int| 1 <= d <= width / 2 ==> (#[trigger] spec_mood_cells(width, score)[width / 2 + d]
            == MoodCell::Filled <==> spec_mood_cells(width, -score)[width / 2 - d] == MoodCell::Filled),
{
    lemma_mood_fill_is_proportional(width, score);
    lemma_mood_fill_is_proportional(width, -score);
    assert(width - width / 2 - 1 == width / 2);
}

} // verus!
