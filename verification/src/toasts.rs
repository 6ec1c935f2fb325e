//! Toast notifications: the card stack in the top-right corner, each card's
//! wrapped message, and click hit-testing against the same geometry.
use vstd::prelude::*;
use crate::chrome::{card_width, card_width_spec};
use crate::geometry::{Rect, point_in_rect, sat_sub};
use crate::wrap::{first_lines, strings_view, wrap_text, wrapped_lines};

verus! {

/// The most lines a toast message shows.
pub const TOAST_MAX_LINES: usize = 4;

/// Blank columns kept between a toast and the terminal's right edge.
pub const TOAST_RIGHT_INSET: u16 = 2;

/// The lines a toast message wraps to inside a card `card_width` wide: the
/// card keeps two columns of edge and padding on each side.
pub open spec fn spec_toast_lines(message: Seq<char>, card_width: int) -> Seq<Seq<char>> {
    let w = sat_sub(card_width, 4);
    first_lines(wrapped_lines(message, w, w), TOAST_MAX_LINES as int)
}

/// The message lines of a toast in a card `card_width` columns wide.
pub fn toast_lines(message: &str, card_width: u16) -> (lines: Vec<String>)
    ensures
        strings_view(lines@) == spec_toast_lines(message@, card_width as int),
{
    let w = card_width.saturating_sub(4) as usize;
    wrap_text(message, w, TOAST_MAX_LINES)
}

/// A card's height: its message lines plus a padding row above and below.
pub open spec fn toast_height(message: Seq<char>, card_width: int) -> int {
    spec_toast_lines(message, card_width).len() as int + 2
}

/// The stack from toast `i` on, the next card's top at row `y`: each card
/// takes its height and leaves one blank row below it; stacking stops at the
/// first card that would cross the area's bottom.
pub open spec fn stack_from(messages: Seq<String>, area: Rect, width: int, x: int, i: int, y: int) -> Seq<Rect>
    decreases messages.len() - i,
{
    if i < 0 || i >= messages.len() {
        seq![]
    } else {
        let h = toast_height(messages[i]@, width);
        if y + h > area.spec_bottom() {
            seq![]
        } else {
            seq![Rect { x: x as u16, y: y as u16, width: width as u16, height: h as u16 }]
                + stack_from(messages, area, width, x, i + 1, y + h + 1)
        }
    }
}

/// The on-screen rect of each visible toast, oldest first: cards
/// `card_width` wide, right-aligned `TOAST_RIGHT_INSET` columns from the
/// area's right edge, stacked from the row below the area's top.
pub open spec fn spec_toast_rects(messages: Seq<String>, area: Rect) -> Seq<Rect> {
    let width = card_width_spec(area.width as int);
    if width <= 4 {
        seq![]
    } else {
        let x = sat_sub(area.spec_right(), TOAST_RIGHT_INSET + width);
        stack_from(messages, area, width, x, 0, area.y + 1)
    }
}

/// The on-screen rect of each visible toast, oldest first. Drawing and the
/// mouse hit-test both derive from this one geometry, so a click can never
/// miss what is painted.
pub fn toast_rects(messages: &[String], area: Rect) -> (rects: Vec<Rect>)
    ensures
        rects@ == spec_toast_rects(messages@, area),
{
    let width = card_width(area.width);
    if width <= 4 {
        return Vec::new();
    }
    let right = area.right();
    let x = right.saturating_sub(TOAST_RIGHT_INSET + width);
    let bottom = area.bottom() as u32;
    let mut y: u32 = area.y as u32 + 1;
    let mut rects: Vec<Rect> = Vec::new();
    let mut i: usize = 0;
    let ghost full = spec_toast_rects(messages@, area);
    assert(full == rects@ + stack_from(messages@, area, width as int, x as int, 0, y as int));
    while i < messages.len()
        invariant
            i <= messages.len(),
            width == card_width_spec(area.width as int),
            4 < width <= 44,
            x == sat_sub(area.spec_right(), TOAST_RIGHT_INSET + width),
            bottom == area.spec_bottom(),
            y <= bottom + 1,
            full == spec_toast_rects(messages@, area),
            full == rects@ + stack_from(messages@, area, width as int, x as int, i as int, y as int),
        decreases messages.len() - i,
    {
        let lines = toast_lines(messages[i].as_str(), width);
        assert(lines@.len() == strings_view(lines@).len());
        let h = lines.len() as u32 + 2;
        if y + h > bottom {
            assert(stack_from(messages@, area, width as int, x as int, i as int, y as int) =~= seq![]);
            assert(rects@ =~= rects@ + seq![]);
            return rects;
        }
        let r = Rect { x, y: y as u16, width, height: h as u16 };
        let ghost before = rects@;
        rects.push(r);
        assert(before + stack_from(messages@, area, width as int, x as int, i as int, y as int)
            =~= rects@ + stack_from(messages@, area, width as int, x as int, i + 1, y + h + 1));
        y = y + h + 1;
        i += 1;
    }
    assert(stack_from(messages@, area, width as int, x as int, i as int, y as int) =~= seq![]);
    assert(rects@ =~= rects@ + seq![]);
    rects
}

/// The first rect of `rects`, from index `i` on, that contains the cell.
pub open spec fn first_containing(rects: Seq<Rect>, x: int, y: int, i: int) -> Option<int>
    decreases rects.len() - i,
{
    if i < 0 || i >= rects.len() {
        None
    } else if rects[i].spec_contains(x, y) {
        Some(i)
    } else {
        first_containing(rects, x, y, i + 1)
    }
}

/// The index of the toast under `(col, row)`, if any.
pub fn toast_at_point(messages: &[String], area: Rect, col: u16, row: u16) -> (index: Option<usize>)
    ensures
        match index {
            Some(i) => first_containing(spec_toast_rects(messages@, area), col as int, row as int, 0)
                == Some(i as int),
            None => first_containing(spec_toast_rects(messages@, area), col as int, row as int, 0)
                is None,
        },
{
    let rects = toast_rects(messages, area);
    let mut i: usize = 0;
    while i < rects.len()
        invariant
            rects@ == spec_toast_rects(messages@, area),
            i <= rects.len(),
            first_containing(rects@, col as int, row as int, 0) == first_containing(
                rects@,
                col as int,
                row as int,
                i as int,
            ),
        decreases rects.len() - i,
    {
        if point_in_rect(rects[i], col, row) {
            return Some(i);
        }
        i += 1;
    }
    None
}

/// Where a toast card's message goes: inside one edge-and-padding column on
/// each side and one padding row above and below.
pub fn toast_content(card: Rect) -> (content: Rect)
    requires
        card.x + 2 <= u16::MAX,
        card.y + 1 <= u16::MAX,
    ensures
        content == (Rect {
            x: (card.x + 2) as u16,
            y: (card.y + 1) as u16,
            width: sat_sub(card.width as int, 4) as u16,
            height: sat_sub(card.height as int, 2) as u16,
        }),
{
    Rect {
        x: card.x + 2,
        y: card.y + 1,
        width: card.width.saturating_sub(4),
        height: card.height.saturating_sub(2),
    }
}

} // verus!
