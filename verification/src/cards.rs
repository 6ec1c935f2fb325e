//! Entry cards: a boxed preview with labels set into its top and bottom
//! edges — day and time on top, journal and a flag at the bottom. Bordered
//! chrome draws the box; flat chrome keeps the same cells but paints no
//! border glyphs and pads one blank row above and below.
use vstd::prelude::*;
use crate::chrome::ChromeStyle;
use crate::geometry::sat_sub;
use crate::text::{display_width, push_char, repeat_char, repeat_string, str_width};
use crate::wrap::{first_lines, strings_view, wrap_text, wrapped_lines};

verus! {

/// The most preview lines a card shows.
pub const CARD_PREVIEW_LINES: usize = 2;

/// The glyphs a card is drawn with: corners, edge fill and sides.
pub struct CardGlyphs {
    pub top_left: char,
    pub top_right: char,
    pub bottom_left: char,
    pub bottom_right: char,
    pub horizontal: char,
    pub vertical: char,
}

/// Box-drawing glyphs for bordered chrome, blanks for flat chrome.
pub open spec fn spec_card_glyphs(chrome: ChromeStyle) -> CardGlyphs {
    match chrome {
        ChromeStyle::Bordered => CardGlyphs {
            top_left: '┌',
            top_right: '┐',
            bottom_left: '└',
            bottom_right: '┘',
            horizontal: '─',
            vertical: '│',
        },
        ChromeStyle::Flat => CardGlyphs {
            top_left: ' ',
            top_right: ' ',
            bottom_left: ' ',
            bottom_right: ' ',
            horizontal: ' ',
            vertical: ' ',
        },
    }
}

pub fn card_glyphs(chrome: ChromeStyle) -> (glyphs: CardGlyphs)
    ensures
        glyphs == spec_card_glyphs(chrome),
{
    match chrome {
        ChromeStyle::Bordered => CardGlyphs {
            top_left: '┌',
            top_right: '┐',
            bottom_left: '└',
            bottom_right: '┘',
            horizontal: '─',
            vertical: '│',
        },
        ChromeStyle::Flat => CardGlyphs {
            top_left: ' ',
            top_right: ' ',
            bottom_left: ' ',
            bottom_right: ' ',
            horizontal: ' ',
            vertical: ' ',
        },
    }
}

/// A label as set into an edge: one blank on each side; nothing when absent.
pub open spec fn edge_label(label: Option<Seq<char>>) -> Seq<char> {
    match label {
        Some(t) => seq![' '] + t + seq![' '],
        None => seq![],
    }
}

/// One edge of a card `total` columns wide: its corners, the left label right
/// after the left corner, the right label right before the right corner, and
/// `fill` in between (none when the labels leave no room).
pub open spec fn edge_line(
    left_corner: char,
    right_corner: char,
    fill: char,
    left: Option<Seq<char>>,
    right: Option<Seq<char>>,
    total: int,
) -> Seq<char> {
    let l = edge_label(left);
    let r = edge_label(right);
    let gap = sat_sub(sat_sub(sat_sub(total, 2), display_width(l) as int), display_width(r) as int);
    seq![left_corner] + l + repeat_char(fill, gap as nat) + r + seq![right_corner]
}

/// One preview row: a side, a blank, the text padded to `width` columns, a
/// blank and the other side.
pub open spec fn body_row(side: char, text: Seq<char>, width: int) -> Seq<char> {
    seq![side, ' '] + text + repeat_char(' ', sat_sub(width, display_width(text) as int) as nat)
        + seq![' ', side]
}

/// `Some` of a non-empty text.
pub open spec fn non_empty(t: Seq<char>) -> Option<Seq<char>> {
    if t.len() == 0 { None } else { Some(t) }
}

pub open spec fn opt_view(t: Option<&str>) -> Option<Seq<char>> {
    match t {
        Some(s) => Some(s@),
        None => None,
    }
}

/// The preview lines of a card: the body wrapped to the card's text width,
/// at most `CARD_PREVIEW_LINES`, and one empty line for an empty body.
pub open spec fn card_preview(body: Seq<char>, width: int) -> Seq<Seq<char>> {
    let lines = first_lines(wrapped_lines(body, width, width), CARD_PREVIEW_LINES as int);
    if lines.len() == 0 { seq![Seq::<char>::empty()] } else { lines }
}

/// Every line of a card whose text is `width` columns wide (the card itself
/// is four columns wider).
pub open spec fn spec_entry_box_lines(
    date: Option<Seq<char>>,
    time: Seq<char>,
    body: Seq<char>,
    journal: Option<Seq<char>>,
    flag: Option<Seq<char>>,
    width: int,
    chrome: ChromeStyle,
) -> Seq<Seq<char>> {
    let g = spec_card_glyphs(chrome);
    let total = width + 4;
    let top = edge_line(g.top_left, g.top_right, g.horizontal, date, non_empty(time), total);
    let bottom = edge_line(g.bottom_left, g.bottom_right, g.horizontal, journal, flag, total);
    let rows = card_preview(body, width).map_values(|t: Seq<char>| body_row(g.vertical, t, width));
    let card = seq![top] + rows + seq![bottom];
    match chrome {
        ChromeStyle::Bordered => card,
        ChromeStyle::Flat => seq![repeat_char(' ', total as nat)] + card + seq![
            repeat_char(' ', total as nat),
        ],
    }
}

/// A label with a blank on each side, and its display width.
fn label_part(label: Option<&str>) -> (part: (String, usize))
    ensures
        part.0@ == edge_label(opt_view(label)),
        part.1 == display_width(part.0@),
{
    match label {
        Some(t) => {
            let mut s = String::new();
            push_char(&mut s, ' ');
            s.append(t);
            push_char(&mut s, ' ');
            assert(s@ =~= seq![' '] + t@ + seq![' ']);
            let w = str_width(s.as_str());
            (s, w)
        },
        None => {
            let s = String::new();
            assert(s@ =~= seq![]);
            let w = str_width(s.as_str());
            (s, w)
        },
    }
}

fn build_edge(
    left_corner: char,
    right_corner: char,
    fill: char,
    left: Option<&str>,
    right: Option<&str>,
    total: usize,
) -> (line: String)
    ensures
        line@ == edge_line(left_corner, right_corner, fill, opt_view(left), opt_view(right), total as int),
{
    let (l, wl) = label_part(left);
    let (r, wr) = label_part(right);
    let gap = total.saturating_sub(2).saturating_sub(wl).saturating_sub(wr);
    let mut line = String::new();
    push_char(&mut line, left_corner);
    line.append(l.as_str());
    let run = repeat_string(fill, gap);
    line.append(run.as_str());
    line.append(r.as_str());
    push_char(&mut line, right_corner);
    assert(line@ =~= edge_line(left_corner, right_corner, fill, opt_view(left), opt_view(right), total as int));
    line
}

fn build_body_row(side: char, text: &str, width: usize) -> (row: String)
    ensures
        row@ == body_row(side, text@, width as int),
{
    let pad = width.saturating_sub(str_width(text));
    let mut row = String::new();
    push_char(&mut row, side);
    push_char(&mut row, ' ');
    row.append(text);
    let blanks = repeat_string(' ', pad);
    row.append(blanks.as_str());
    push_char(&mut row, ' ');
    push_char(&mut row, side);
    assert(row@ =~= body_row(side, text@, width as int));
    row
}

/// The lines of an entry card (or a search hit) whose text is `width` columns
/// wide: the top edge carries `date` on the left and `time` on the right, the
/// preview wraps to at most `CARD_PREVIEW_LINES` rows, and the bottom edge
/// carries `journal` on the left and `flag` on the right. Flat chrome blanks
/// every border glyph and adds a blank row above and below, so the labels sit
/// inside the card's padding.
pub fn entry_box_lines(
    date: Option<&str>,
    time: &str,
    body: &str,
    journal: Option<&str>,
    flag: Option<&str>,
    width: u16,
    chrome: ChromeStyle,
) -> (lines: Vec<String>)
    ensures
        strings_view(lines@) == spec_entry_box_lines(
            opt_view(date),
            time@,
            body@,
            opt_view(journal),
            opt_view(flag),
            width as int,
            chrome,
        ),
{
    let g = card_glyphs(chrome);
    let w = width as usize;
    let total = w + 4;
    let time_label: Option<&str> = if time.unicode_len() == 0 {
        None
    } else {
        Some(time)
    };
    assert(opt_view(time_label) == non_empty(time@));
    let top = build_edge(g.top_left, g.top_right, g.horizontal, date, time_label, total);
    let bottom = build_edge(g.bottom_left, g.bottom_right, g.horizontal, journal, flag, total);
    let mut preview = wrap_text(body, w, CARD_PREVIEW_LINES);
    if preview.len() == 0 {
        preview.push(String::new());
        assert(strings_view(preview@) =~= seq![Seq::<char>::empty()]);
    }
    let ghost texts = strings_view(preview@);
    assert(texts == card_preview(body@, w as int));
    let mut lines: Vec<String> = Vec::new();
    let flat = match chrome {
        ChromeStyle::Flat => true,
        ChromeStyle::Bordered => false,
    };
    if flat {
        lines.push(repeat_string(' ', total));
    }
    let ghost head = strings_view(lines@);
    lines.push(top);
    let mut i: usize = 0;
    while i < preview.len()
        invariant
            i <= preview.len(),
            texts == strings_view(preview@),
            strings_view(lines@) == head + seq![top@] + texts.take(i as int).map_values(
                |t: Seq<char>| body_row(g.vertical, t, w as int),
            ),
        decreases preview.len() - i,
    {
        let row = build_body_row(g.vertical, preview[i].as_str(), w);
        let ghost before = strings_view(lines@);
        lines.push(row);
        assert(texts.take(i + 1) =~= texts.take(i as int).push(texts[i as int]));
        assert(strings_view(lines@) =~= before.push(row@));
        assert(strings_view(lines@) =~= head + seq![top@] + texts.take(i + 1).map_values(
            |t: Seq<char>| body_row(g.vertical, t, w as int),
        ));
        i += 1;
    }
    assert(texts.take(i as int) =~= texts);
    let ghost before_bottom = strings_view(lines@);
    lines.push(bottom);
    assert(strings_view(lines@) =~= before_bottom.push(bottom@));
    if flat {
        let ghost before_pad = strings_view(lines@);
        let pad = repeat_string(' ', total);
        lines.push(pad);
        assert(strings_view(lines@) =~= before_pad.push(pad@));
    }
    let ghost spec = spec_entry_box_lines(
        opt_view(date),
        time@,
        body@,
        opt_view(journal),
        opt_view(flag),
        width as int,
        chrome,
    );
    assert(strings_view(lines@) =~= spec);
    lines
}

} // verus!
