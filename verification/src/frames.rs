//! Dialog frames: the content rect inside a dialog's frame, and the yes/no
//! buttons of confirmation dialogs, where they sit and which one a click
//! lands on.
use vstd::prelude::*;
use crate::chrome::{dialog_frame_rows, flat_chrome, ChromeStyle};
use crate::geometry::{Rect, point_in_rect, sat_add_u16, sat_sub};

verus! {

/// Width of each confirm button.
pub const CONFIRM_BUTTON_WIDTH: u16 = 16;

/// Columns between the two buttons.
pub const CONFIRM_BUTTON_GAP: u16 = 2;

/// Whether the buttons of a dialog whose content is `inner` have `u16`
/// coordinates.
pub open spec fn buttons_fit(inner: Rect) -> bool {
    &&& inner.y + sat_sub(inner.height as int, 1) <= u16::MAX
    &&& inner.x + sat_sub(inner.width as int, 34) / 2 + CONFIRM_BUTTON_WIDTH + CONFIRM_BUTTON_GAP
        <= u16::MAX
}

/// The `(yes, no)` button rects: both on the last row of `inner`, the pair
/// centered with a two-column gap.
pub open spec fn spec_confirm_button_rects(inner: Rect) -> (Rect, Rect) {
    let y = inner.y + sat_sub(inner.height as int, 1);
    let start = inner.x + sat_sub(inner.width as int, 34) / 2;
    (
        Rect { x: start as u16, y: y as u16, width: CONFIRM_BUTTON_WIDTH, height: 1 },
        Rect {
            x: (start + CONFIRM_BUTTON_WIDTH + CONFIRM_BUTTON_GAP) as u16,
            y: y as u16,
            width: CONFIRM_BUTTON_WIDTH,
            height: 1,
        },
    )
}

/// The `(yes, no)` button rects of a confirmation dialog: sizing and
/// hit-testing both derive from this, so the drawn buttons are the click
/// targets.
pub fn confirm_button_rects(inner: Rect) -> (buttons: (Rect, Rect))
    requires
        buttons_fit(inner),
    ensures
        buttons == spec_confirm_button_rects(inner),
{
    let y = inner.y + inner.height.saturating_sub(1);
    let total = CONFIRM_BUTTON_WIDTH * 2 + CONFIRM_BUTTON_GAP;
    let start = inner.x + inner.width.saturating_sub(total) / 2;
    let yes = Rect { x: start, y, width: CONFIRM_BUTTON_WIDTH, height: 1 };
    let no = Rect {
        x: start + CONFIRM_BUTTON_WIDTH + CONFIRM_BUTTON_GAP,
        y,
        width: CONFIRM_BUTTON_WIDTH,
        height: 1,
    };
    (yes, no)
}

/// Which button a click hits: `Some(true)` for yes, `Some(false)` for no.
pub open spec fn spec_confirm_button_at(inner: Rect, col: int, row: int) -> Option<bool> {
    let (yes, no) = spec_confirm_button_rects(inner);
    if yes.spec_contains(col, row) {
        Some(true)
    } else if no.spec_contains(col, row) {
        Some(false)
    } else {
        None
    }
}

/// Map a click to a confirm button.
pub fn confirm_button_at(inner: Rect, col: u16, row: u16) -> (choice: Option<bool>)
    requires
        buttons_fit(inner),
    ensures
        choice == spec_confirm_button_at(inner, col as int, row as int),
{
    let (yes, no) = confirm_button_rects(inner);
    if point_in_rect(yes, col, row) {
        Some(true)
    } else if point_in_rect(no, col, row) {
        Some(false)
    } else {
        None
    }
}

/// The buttons never overlap: every cell of the yes button answers yes, and
/// every cell of the no button answers no (for buttons that end inside the
/// `u16` columns and sit above the last `u16` row, where a one-row rect is
/// empty).
pub proof fn lemma_each_button_answers_for_itself(inner: Rect, k: int)
    requires
        buttons_fit(inner),
        inner.y + sat_sub(inner.height as int, 1) < u16::MAX,
        0 <= k < CONFIRM_BUTTON_WIDTH,
    ensures
        spec_confirm_button_at(
            inner,
            spec_confirm_button_rects(inner).0.x + k,
            spec_confirm_button_rects(inner).0.y as int,
        ) == Some(true),
        spec_confirm_button_rects(inner).1.x + CONFIRM_BUTTON_WIDTH <= u16::MAX ==> spec_confirm_button_at(
            inner,
            spec_confirm_button_rects(inner).1.x + k,
            spec_confirm_button_rects(inner).1.y as int,
        ) == Some(false),
{
    let y = inner.y + sat_sub(inner.height as int, 1);
    let start = inner.x + sat_sub(inner.width as int, 34) / 2;
    let (yes, no) = spec_confirm_button_rects(inner);
    assert(yes.x == start);
    assert(yes.y == y);
    assert(no.x == start + 18);
    assert(yes.spec_right() == start + 16);
    assert(yes.spec_contains(start + k, y));
    if no.x + CONFIRM_BUTTON_WIDTH <= u16::MAX {
        assert(!yes.spec_contains(no.x + k, y));
        assert(no.spec_contains(no.x + k, y));
    }
}


/// The content of a surface inside its frame: one blank column on the left,
/// and on the right the scrollbar's column with a blank one before it (flat
/// chrome insets the scrollbar by a further column).
pub open spec fn spec_surface_content_inner(frame: Rect, chrome: ChromeStyle) -> Rect {
    Rect {
        x: sat_add_u16(frame.x as int, 1) as u16,
        y: frame.y,
        width: sat_sub(frame.width as int, if chrome == ChromeStyle::Flat { 3 } else { 2 }) as u16,
        height: frame.height,
    }
}

/// A dialog's content rect within its outer `area`: the frame insets one
/// column each side and its rows (the border on bordered chrome; on flat, a
/// padding row, the title and a blank row on top and a padding row below),
/// each axis saturating; the surface gutters then apply.
pub open spec fn spec_dialog_inner(area: Rect, chrome: ChromeStyle) -> Rect {
    let top = if chrome == ChromeStyle::Flat { 3int } else { 1int };
    let rows = if chrome == ChromeStyle::Flat { 4int } else { 2int };
    let frame = Rect {
        x: sat_add_u16(area.x as int, 1) as u16,
        y: sat_add_u16(area.y as int, top) as u16,
        width: sat_sub(area.width as int, 2) as u16,
        height: sat_sub(area.height as int, rows) as u16,
    };
    spec_surface_content_inner(frame, chrome)
}

/// The content rect of a dialog drawn in `area`; drawing and every mouse
/// hit-test derive dialog geometry from this one place.
pub fn dialog_inner(area: Rect, chrome: ChromeStyle) -> (inner: Rect)
    ensures
        inner == spec_dialog_inner(area, chrome),
{
    let top: u16 = if flat_chrome(chrome) { 3 } else { 1 };
    let right_gutter: u16 = if flat_chrome(chrome) { 3 } else { 2 };
    let frame = Rect {
        x: area.x.saturating_add(1),
        y: area.y.saturating_add(top),
        width: area.width.saturating_sub(2),
        height: area.height.saturating_sub(dialog_frame_rows(chrome)),
    };
    Rect {
        x: frame.x.saturating_add(1),
        y: frame.y,
        width: frame.width.saturating_sub(right_gutter),
        height: frame.height,
    }
}

} // verus!
