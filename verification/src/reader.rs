//! Placing an entry's body in the reader panel: capped to a reading width
//! and centred, and pushed to the vertical middle when it fits unscrolled.
use vstd::prelude::*;
use crate::geometry::Rect;

verus! {

/// `rect` capped at `max_width` columns and centred horizontally; a cap of
/// zero, or a rect no wider than it, leaves `rect` as it is.
pub open spec fn spec_centered_body_rect(rect: Rect, max_width: u16) -> Rect {
    if max_width == 0 || rect.width <= max_width {
        rect
    } else {
        Rect { x: (rect.x + (rect.width - max_width) / 2) as u16, width: max_width, ..rect }
    }
}

/// Cap the body at a reading width and centre it in the panel.
pub fn centered_body_rect(rect: Rect, max_width: u16) -> (body: Rect)
    requires
        max_width == 0 || rect.width <= max_width || rect.x + (rect.width - max_width) / 2 <= u16::MAX,
    ensures
        body == spec_centered_body_rect(rect, max_width),
{
    if max_width == 0 || rect.width <= max_width {
        return rect;
    }
    let x = rect.x + (rect.width - max_width) / 2;
    Rect { x, width: max_width, ..rect }
}

/// When `line_count` lines fit `rect` and nothing is scrolled, the rect
/// moved down by half the spare rows (rounded down) and shortened to match;
/// otherwise `rect` itself, so scrolling covers every line.
pub open spec fn spec_center_body_vertically(rect: Rect, line_count: int, scroll: u16) -> Rect {
    if scroll > 0 || line_count >= rect.height {
        rect
    } else {
        let pad = (rect.height - line_count) / 2;
        Rect { y: (rect.y + pad) as u16, height: (rect.height - pad) as u16, ..rect }
    }
}

/// Sit a short entry in the vertical middle of the body rect.
pub fn center_body_vertically(rect: Rect, line_count: usize, scroll: u16) -> (body: Rect)
    requires
        scroll > 0 || line_count >= rect.height || rect.y + (rect.height - line_count) / 2 <= u16::MAX,
    ensures
        body == spec_center_body_vertically(rect, line_count as int, scroll),
{
    if scroll > 0 || line_count >= rect.height as usize {
        return rect;
    }
    let pad = (rect.height - line_count as u16) / 2;
    Rect { y: rect.y + pad, height: rect.height - pad, ..rect }
}


/// The width the body's text is laid out to: one column short of the body
/// (room for the scrollbar), at least one.
pub fn reader_text_width(body_width: u16) -> (width: usize)
    ensures
        width == if body_width >= 2 { body_width - 1 } else { 1 },
{
    if body_width >= 2 { (body_width - 1) as usize } else { 1 }
}

/// The blank lines set between the body and metadata that scrolls with it:
/// none without metadata; while both fit the pane, enough to bottom-attach
/// the metadata to the pane's lower edge; otherwise one, to set it off.
pub open spec fn spec_metadata_gap(body_lines: int, meta_lines: int, height: int) -> int {
    if meta_lines == 0 {
        0
    } else if body_lines + meta_lines < height {
        height - meta_lines - body_lines
    } else {
        1
    }
}

pub fn metadata_gap(body_lines: usize, meta_lines: usize, height: u16) -> (gap: usize)
    ensures
        gap == spec_metadata_gap(body_lines as int, meta_lines as int, height as int),
{
    if meta_lines == 0 {
        0
    } else if body_lines < height as usize && meta_lines < height as usize - body_lines {
        height as usize - meta_lines - body_lines
    } else {
        1
    }
}

/// A link's click region on a body line.
#[derive(Clone, Copy, Debug, PartialEq, Eq, Structural)]
pub struct LinkSpan {
    pub line: usize,
    pub start: usize,
    pub end: usize,
    pub group: usize,
}

/// The first region that is exactly the hovered one, if any.
pub open spec fn first_matching(links: Seq<LinkSpan>, line: usize, start: usize, end: usize, k: int) -> Option<int>
    decreases k,
{
    if k <= 0 {
        None
    } else {
        match first_matching(links, line, start, end, k - 1) {
            Some(i) => Some(i),
            None => if links[k - 1].line == line && links[k - 1].start == start && links[k - 1].end == end {
                Some(k - 1)
            } else {
                None
            },
        }
    }
}

/// The regions a hovered link lights up: every piece of the link whose
/// region (`line`, `start`, `end`) is hovered, so a wrapped name inverts
/// as one link; none when no region is hovered.
pub open spec fn spec_hovered_link_pieces(links: Seq<LinkSpan>, line: usize, start: usize, end: usize) -> Seq<int> {
    match first_matching(links, line, start, end, links.len() as int) {
        Some(i) => Seq::new(links.len(), |k: int| k).filter(|k: int| links[k].group == links[i].group),
        None => seq![],
    }
}

pub fn hovered_link_pieces(links: &Vec<LinkSpan>, line: usize, start: usize, end: usize) -> (pieces: Vec<usize>)
    ensures
        pieces@.map_values(|p: usize| p as int) == spec_hovered_link_pieces(links@, line, start, end),
{
    let mut found: Option<usize> = None;
    let mut k: usize = 0;
    while k < links.len()
        invariant
            k <= links@.len(),
            found matches Some(i) ==> i < links@.len(),
            match found {
                Some(i) => first_matching(links@, line, start, end, k as int) == Some(i as int),
                None => first_matching(links@, line, start, end, k as int) is None,
            },
        decreases links@.len() - k,
    {
        if found.is_none() && links[k].line == line && links[k].start == start && links[k].end == end {
            found = Some(k);
        }
        k += 1;
    }
    let mut pieces: Vec<usize> = Vec::new();
    match found {
        None => {
            assert(pieces@.map_values(|p: usize| p as int) =~= spec_hovered_link_pieces(links@, line, start, end));
        },
        Some(i) => {
            let group = links[i].group;
            let ghost all = Seq::new(links@.len(), |k: int| k);
            let ghost keep = |k: int| links@[k].group == group;
            let mut k: usize = 0;
            proof {
                reveal(Seq::filter);
                assert(all.take(0).filter(keep) =~= Seq::<int>::empty());
            }
            while k < links.len()
                invariant
                    k <= links@.len(),
                    all == Seq::new(links@.len(), |k: int| k),
                    keep == (|k: int| links@[k].group == group),
                    pieces@.map_values(|p: usize| p as int) == all.take(k as int).filter(keep),
                decreases links@.len() - k,
            {
                let ghost before = pieces@.map_values(|p: usize| p as int);
                proof {
                    reveal(Seq::filter);
                    assert(all.take(k + 1).drop_last() =~= all.take(k as int));
                    assert(all.take(k + 1).last() == k as int);
                    assert(all.take(k + 1).filter(keep) == if keep(k as int) {
                        all.take(k as int).filter(keep).push(k as int)
                    } else {
                        all.take(k as int).filter(keep)
                    });
                }
                if links[k].group == group {
                    pieces.push(k);
                    assert(pieces@.map_values(|p: usize| p as int) =~= before.push(k as int));
                } else {
                    assert(pieces@.map_values(|p: usize| p as int) =~= before);
                }
                k += 1;
            }
            assert(all.take(links@.len() as int) =~= all);
        },
    }
    pieces
}

} // verus!
