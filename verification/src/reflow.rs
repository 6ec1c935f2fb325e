//! Reflowing styled text for the reader: characters tagged with a style and
//! an optional link, wrapped at whitespace (or anywhere, for code and rules)
//! to a display width, then merged back into style runs and link regions.
use vstd::prelude::*;
use crate::markdown::{is_whitespace_char, whitespace};
use crate::text::push_char;

verus! {

/// How many columns `unicode-width` gives a character (`None` for control
/// characters).
pub uninterp spec fn char_columns(c: char) -> Option<nat>;

/// `UnicodeWidthChar::width` of `unicode-width`: trusted to return
/// `char_columns(c)`, which depends on the character alone. As its source
/// shows, the control characters (below U+0020 and U+007F to U+009F) get
/// `None`, the other ASCII characters one column, and no character more than
/// three columns (U+17D8 is the one that gets three).
#[verifier::external_body]
fn unicode_char_width(c: char) -> (w: Option<usize>)
    ensures
        match w {
            Some(k) => k <= 3 && char_columns(c) == Some(k as nat),
            None => char_columns(c) is None,
        },
        w is None <==> (c as u32) < 0x20 || (0x7f <= (c as u32) && (c as u32) < 0xa0),
        0x20 <= (c as u32) && (c as u32) < 0x7f ==> w == Some(1usize),
{
    unicode_width::UnicodeWidthChar::width(c)
}

/// One displayed character: its columns, a style (an index the caller gives
/// meaning to) and the link it belongs to, if any.
#[derive(Clone, Copy, Debug, PartialEq, Eq, Structural)]
pub struct StyledChar {
    pub character: char,
    pub width: usize,
    pub style: usize,
    pub link: Option<usize>,
}

/// The columns a character takes when laid out: its display width, zero for
/// control characters.
pub open spec fn columns_of(c: char) -> int {
    match char_columns(c) {
        Some(n) => n as int,
        None => 0,
    }
}

/// The characters of `text`, each with its columns, `style` and `link`.
pub open spec fn styled(text: Seq<char>, style: usize, link: Option<usize>) -> Seq<StyledChar> {
    Seq::new(text.len(), |i: int| styled_char(text[i], style, link))
}

/// `c` with its columns, `style` and `link`.
pub open spec fn styled_char(c: char, style: usize, link: Option<usize>) -> StyledChar {
    StyledChar { character: c, width: columns_of(c) as usize, style: style, link: link }
}

/// Tag every character of `text` with its columns, `style` and `link`.
pub fn styled_chars(text: &str, style: usize, link: Option<usize>) -> (chars: Vec<StyledChar>)
    ensures
        chars@ == styled(text@, style, link),
{
    let n = text.unicode_len();
    let mut chars: Vec<StyledChar> = Vec::new();
    let mut i: usize = 0;
    while i < n
        invariant
            n == text@.len(),
            i <= n,
            chars@ == styled(text@, style, link).take(i as int),
        decreases n - i,
    {
        let c = text.get_char(i);
        let width = match unicode_char_width(c) {
            Some(w) => w,
            None => 0,
        };
        chars.push(StyledChar { character: c, width, style, link });
        i += 1;
        assert(chars@ =~= styled(text@, style, link).take(i as int));
    }
    assert(styled(text@, style, link).take(n as int) =~= styled(text@, style, link));
    chars
}

/// `a + b`, capped at `usize::MAX`.
pub open spec fn sat_add(a: int, b: int) -> int {
    if a + b > usize::MAX { usize::MAX as int } else { a + b }
}

/// The columns of `cs[from..to]`, summed with saturation.
pub open spec fn width_sum(cs: Seq<StyledChar>, from: int, to: int) -> int
    decreases to - from,
{
    if to <= from {
        0
    } else {
        sat_add(width_sum(cs, from, to - 1), cs[to - 1].width as int)
    }
}

/// The end of the run starting at `i`: the first later character whose
/// whitespace-ness differs, or the end of `cs`.
pub open spec fn run_end(cs: Seq<StyledChar>, i: int) -> int
    decreases cs.len() - i,
{
    if i < 0 || i + 1 >= cs.len() {
        cs.len() as int
    } else if whitespace(cs[i + 1].character) != whitespace(cs[i].character) {
        i + 1
    } else {
        run_end(cs, i + 1)
    }
}

pub proof fn lemma_run_end(cs: Seq<StyledChar>, i: int)
    requires
        0 <= i < cs.len(),
    ensures
        i < run_end(cs, i) <= cs.len(),
        forall|k: int| i <= k < run_end(cs, i) ==> whitespace(#[trigger] cs[k].character) == whitespace(
            cs[i].character,
        ),
        run_end(cs, i) < cs.len() ==> whitespace(cs[run_end(cs, i)].character) != whitespace(
            cs[i].character,
        ),
    decreases cs.len() - i,
{
    if i + 1 < cs.len() && whitespace(cs[i + 1].character) == whitespace(cs[i].character) {
        lemma_run_end(cs, i + 1);
    }
}

/// `lines` with `c` appended to its last line.
pub open spec fn push_last(lines: Seq<Seq<StyledChar>>, c: StyledChar) -> Seq<Seq<StyledChar>> {
    lines.update(lines.len() - 1, lines.last().push(c))
}

/// Place `cs[i..end]` one character at a time: a character that would push a
/// non-empty line past `width` starts a new line.
pub open spec fn place_chars(
    cs: Seq<StyledChar>,
    width: int,
    i: int,
    end: int,
    lines: Seq<Seq<StyledChar>>,
    used: int,
) -> (Seq<Seq<StyledChar>>, int)
    decreases end - i,
{
    if i >= end {
        (lines, used)
    } else {
        let c = cs[i];
        let broke = used > 0 && sat_add(used, c.width as int) > width;
        let l2 = if broke { lines.push(seq![]) } else { lines };
        let u2 = if broke { 0 } else { used };
        place_chars(cs, width, i + 1, end, push_last(l2, c), sat_add(u2, c.width as int))
    }
}

/// The soft wrap from `cursor` on: whitespace runs are held back; a word
/// whose held whitespace and own width would push a non-empty line past
/// `width` starts a new line (the whitespace dropped), otherwise the held
/// whitespace is emitted before it; a word wider than a whole line breaks
/// between characters. Trailing whitespace is dropped.
pub open spec fn soft_wrap_from(
    cs: Seq<StyledChar>,
    width: int,
    cursor: int,
    lines: Seq<Seq<StyledChar>>,
    used: int,
    pending: Option<(int, int)>,
) -> Seq<Seq<StyledChar>>
    decreases cs.len() - cursor,
{
    if cursor < 0 || cursor >= cs.len() {
        lines
    } else {
        let end = run_end(cs, cursor);
        proof {
            lemma_run_end(cs, cursor);
        }
        if whitespace(cs[cursor].character) {
            soft_wrap_from(cs, width, end, lines, used, Some((cursor, end)))
        } else {
            let ws = match pending {
                Some((a, b)) => width_sum(cs, a, b),
                None => 0,
            };
            let tw = width_sum(cs, cursor, end);
            let broke = used > 0 && sat_add(sat_add(used, ws), tw) > width;
            let l2 = if broke {
                lines.push(seq![])
            } else {
                match pending {
                    Some((a, b)) => lines.update(lines.len() - 1, lines.last() + cs.subrange(a, b)),
                    None => lines,
                }
            };
            let u2 = if broke {
                0
            } else {
                match pending {
                    Some(_) => sat_add(used, ws),
                    None => used,
                }
            };
            let placed = place_chars(cs, width, cursor, end, l2, u2);
            soft_wrap_from(cs, width, end, placed.0, placed.1, None)
        }
    }
}

/// The lines a soft wrap of `cs` to `width` columns gives.
pub open spec fn spec_soft_wrap(cs: Seq<StyledChar>, width: int) -> Seq<Seq<StyledChar>> {
    soft_wrap_from(cs, width, 0, seq![seq![]], 0, None)
}

/// The lines a hard wrap gives: characters placed one by one, breaking
/// wherever the next would overflow a non-empty line.
pub open spec fn spec_hard_wrap(cs: Seq<StyledChar>, width: int) -> Seq<Seq<StyledChar>> {
    place_chars(cs, width, 0, cs.len() as int, seq![seq![]], 0).0
}

pub open spec fn lines_view(lines: Seq<Vec<StyledChar>>) -> Seq<Seq<StyledChar>> {
    lines.map_values(|l: Vec<StyledChar>| l@)
}

/// Append `c` to the last of the (non-empty) `lines`.
fn push_onto_last(lines: &mut Vec<Vec<StyledChar>>, c: StyledChar)
    requires
        old(lines)@.len() > 0,
    ensures
        final(lines)@.len() == old(lines)@.len(),
        lines_view(final(lines)@) == push_last(lines_view(old(lines)@), c),
{
    let ghost before = lines_view(lines@);
    let mut last = lines.pop().unwrap();
    last.push(c);
    lines.push(last);
    assert(lines_view(lines@) =~= push_last(before, c));
}

/// Place `cs[from..end]` character by character onto `lines`, starting
/// with `used` columns taken on the last line.
fn place_run(
    cs: &[StyledChar],
    width: usize,
    from: usize,
    end: usize,
    lines: &mut Vec<Vec<StyledChar>>,
    used: usize,
) -> (used_after: usize)
    requires
        from <= end <= cs@.len(),
        old(lines)@.len() > 0,
    ensures
        final(lines)@.len() > 0,
        (lines_view(final(lines)@), used_after as int) == place_chars(
            cs@,
            width as int,
            from as int,
            end as int,
            lines_view(old(lines)@),
            used as int,
        ),
{
    let ghost target = place_chars(cs@, width as int, from as int, end as int, lines_view(lines@), used as int);
    let mut used = used;
    let mut i = from;
    while i < end
        invariant
            from <= i <= end <= cs@.len(),
            lines@.len() > 0,
            target == place_chars(cs@, width as int, i as int, end as int, lines_view(lines@), used as int),
        decreases end - i,
    {
        let c = cs[i];
        if used > 0 && used.saturating_add(c.width) > width {
            let ghost before = lines_view(lines@);
            lines.push(Vec::new());
            assert(lines_view(lines@) =~= before.push(seq![]));
            used = 0;
        }
        push_onto_last(lines, c);
        used = used.saturating_add(c.width);
        i += 1;
    }
    used
}


/// `pending` with its bounds taken as integers.
pub open spec fn pending_view(pending: Option<(usize, usize)>) -> Option<(int, int)> {
    match pending {
        Some((a, b)) => Some((a as int, b as int)),
        None => None,
    }
}

/// Where the run of same-whitespace-ness characters starting at `i` ends.
fn run_end_at(cs: &[StyledChar], i: usize) -> (end: usize)
    requires
        i < cs@.len(),
    ensures
        end == run_end(cs@, i as int),
{
    let ws = is_whitespace_char(cs[i].character);
    let mut j = i;
    while j < cs.len() - 1 && is_whitespace_char(cs[j + 1].character) == ws
        invariant
            i <= j < cs@.len(),
            ws == whitespace(cs@[j as int].character),
            run_end(cs@, i as int) == run_end(cs@, j as int),
        decreases cs@.len() - j,
    {
        j += 1;
    }
    j + 1
}

/// The columns of `cs[from..to]`, summed with saturation.
fn token_width(cs: &[StyledChar], from: usize, to: usize) -> (w: usize)
    requires
        from <= to <= cs@.len(),
    ensures
        w == width_sum(cs@, from as int, to as int),
{
    let mut w: usize = 0;
    let mut k = from;
    while k < to
        invariant
            from <= k <= to <= cs@.len(),
            w == width_sum(cs@, from as int, k as int),
        decreases to - k,
    {
        w = w.saturating_add(cs[k].width);
        k += 1;
    }
    w
}

/// Append `cs[from..to]` to the last of the (non-empty) `lines`.
fn extend_last(lines: &mut Vec<Vec<StyledChar>>, cs: &[StyledChar], from: usize, to: usize)
    requires
        old(lines)@.len() > 0,
        from <= to <= cs@.len(),
    ensures
        final(lines)@.len() == old(lines)@.len(),
        lines_view(final(lines)@) == lines_view(old(lines)@).update(
            old(lines)@.len() - 1,
            lines_view(old(lines)@).last() + cs@.subrange(from as int, to as int),
        ),
{
    let ghost before = lines_view(lines@);
    let mut k = from;
    while k < to
        invariant
            from <= k <= to <= cs@.len(),
            lines@.len() == before.len(),
            before.len() > 0,
            lines_view(lines@) == before.update(
                before.len() - 1,
                before.last() + cs@.subrange(from as int, k as int),
            ),
        decreases to - k,
    {
        let ghost prev = lines_view(lines@);
        push_onto_last(lines, cs[k]);
        k += 1;
        assert(before.last() + cs@.subrange(from as int, k as int) =~= (before.last() + cs@.subrange(
            from as int,
            k - 1,
        )).push(cs@[k - 1]));
        assert(lines_view(lines@) =~= before.update(
            before.len() - 1,
            before.last() + cs@.subrange(from as int, k as int),
        ));
    }
    assert(cs@.subrange(from as int, from as int) =~= Seq::<StyledChar>::empty());
}

/// Soft-wrap `cs` to `width` columns: break at whitespace, and inside a word
/// only when the word alone is wider than a line.
pub fn soft_wrap_chars(cs: &[StyledChar], width: usize) -> (lines: Vec<Vec<StyledChar>>)
    ensures
        lines_view(lines@) == spec_soft_wrap(cs@, width as int),
{
    let mut lines: Vec<Vec<StyledChar>> = Vec::new();
    lines.push(Vec::new());
    let mut used: usize = 0;
    let mut pending: Option<(usize, usize)> = None;
    let mut cursor: usize = 0;
    assert(lines_view(lines@) =~= seq![seq![]]);
    while cursor < cs.len()
        invariant
            cursor <= cs@.len(),
            lines@.len() > 0,
            pending matches Some((a, b)) ==> a <= b <= cs@.len(),
            spec_soft_wrap(cs@, width as int) == soft_wrap_from(
                cs@,
                width as int,
                cursor as int,
                lines_view(lines@),
                used as int,
                pending_view(pending),
            ),
        decreases cs@.len() - cursor,
    {
        let end = run_end_at(cs, cursor);
        proof {
            lemma_run_end(cs@, cursor as int);
        }
        if is_whitespace_char(cs[cursor].character) {
            pending = Some((cursor, end));
        } else {
            let ws = match pending {
                Some((a, b)) => token_width(cs, a, b),
                None => 0,
            };
            let tw = token_width(cs, cursor, end);
            if used > 0 && used.saturating_add(ws).saturating_add(tw) > width {
                let ghost before = lines_view(lines@);
                lines.push(Vec::new());
                assert(lines_view(lines@) =~= before.push(seq![]));
                used = 0;
            } else {
                match pending {
                    Some((a, b)) => {
                        extend_last(&mut lines, cs, a, b);
                        used = used.saturating_add(ws);
                    },
                    None => {},
                }
            }
            pending = None;
            used = place_run(cs, width, cursor, end, &mut lines, used);
        }
        cursor = end;
    }
    lines
}

/// Hard-wrap `cs` to `width` columns: break between any two characters.
pub fn hard_wrap_chars(cs: &[StyledChar], width: usize) -> (lines: Vec<Vec<StyledChar>>)
    ensures
        lines_view(lines@) == spec_hard_wrap(cs@, width as int),
{
    let mut lines: Vec<Vec<StyledChar>> = Vec::new();
    lines.push(Vec::new());
    assert(lines_view(lines@) =~= seq![seq![]]);
    place_run(cs, width, 0, cs.len(), &mut lines, 0);
    lines
}


/// A stretch of text in one style.
#[derive(Debug)]
pub struct StyleRun {
    pub style: usize,
    pub content: String,
}

/// A piece of text to wrap, with its style and the link it belongs to.
#[derive(Debug)]
pub struct RichSpan {
    pub content: String,
    pub style: usize,
    pub link: Option<usize>,
}

/// One wrapped display line: its style runs, and each link's column range on
/// it as `(start, end, link)`.
#[derive(Debug)]
pub struct WrappedLine {
    pub spans: Vec<StyleRun>,
    pub links: Vec<(usize, usize, usize)>,
}

/// A style run as a plain value.
pub open spec fn run_view(run: StyleRun) -> (usize, Seq<char>) {
    (run.style, run.content@)
}

pub open spec fn runs_view(runs: Seq<StyleRun>) -> Seq<(usize, Seq<char>)> {
    runs.map_values(|r: StyleRun| run_view(r))
}

/// The characters of `cs` merged into runs: each character joins the last
/// run when it has that run's style, and opens a new run otherwise.
pub open spec fn style_runs(cs: Seq<StyledChar>) -> Seq<(usize, Seq<char>)>
    decreases cs.len(),
{
    if cs.len() == 0 {
        seq![]
    } else {
        let before = style_runs(cs.drop_last());
        let c = cs.last();
        if before.len() > 0 && before.last().0 == c.style {
            before.update(before.len() - 1, (c.style, before.last().1.push(c.character)))
        } else {
            before.push((c.style, seq![c.character]))
        }
    }
}

/// Where a link run stands: the link and the column it began at.
pub open spec fn opened_run(link: Option<usize>, column: usize) -> Option<(usize, usize)> {
    match link {
        Some(id) => Some((id, column)),
        None => None,
    }
}

/// One character of the link scan: a run of one link continues while the
/// link stays the same; any change closes the open run at the current column
/// and opens one for the new link, if any. The column then moves by the
/// character's width, saturating.
pub open spec fn link_step(
    state: (Seq<(usize, usize, usize)>, Option<(usize, usize)>, usize),
    c: StyledChar,
) -> (Seq<(usize, usize, usize)>, Option<(usize, usize)>, usize) {
    let (links, run, column) = state;
    let next_column = sat_add(column as int, c.width as int) as usize;
    match run {
        Some((id, start)) => {
            if c.link == Some(id) {
                (links, run, next_column)
            } else {
                (links.push((start, column, id)), opened_run(c.link, column), next_column)
            }
        },
        None => (links, opened_run(c.link, column), next_column),
    }
}

/// The link scan over all of `cs`, from column zero.
pub open spec fn link_scan(cs: Seq<StyledChar>) -> (
    Seq<(usize, usize, usize)>,
    Option<(usize, usize)>,
    usize,
)
    decreases cs.len(),
{
    if cs.len() == 0 {
        (seq![], None, 0)
    } else {
        link_step(link_scan(cs.drop_last()), cs.last())
    }
}

/// The link regions of a line: those the scan closed, then the one still
/// open at the end of the line.
pub open spec fn link_regions(cs: Seq<StyledChar>) -> Seq<(usize, usize, usize)> {
    let (links, run, column) = link_scan(cs);
    match run {
        Some((id, start)) => links.push((start, column, id)),
        None => links,
    }
}

/// Collapse a wrapped line's characters into style runs, and record the
/// column range of each stretch of one link.
pub fn finalize_line(cs: &[StyledChar]) -> (line: WrappedLine)
    ensures
        runs_view(line.spans@) == style_runs(cs@),
        line.links@ == link_regions(cs@),
{
    let mut spans: Vec<StyleRun> = Vec::new();
    let mut links: Vec<(usize, usize, usize)> = Vec::new();
    let mut column: usize = 0;
    let mut run: Option<(usize, usize)> = None;
    let mut k: usize = 0;
    while k < cs.len()
        invariant
            k <= cs@.len(),
            runs_view(spans@) == style_runs(cs@.take(k as int)),
            (links@, run, column) == link_scan(cs@.take(k as int)),
        decreases cs@.len() - k,
    {
        let c = cs[k];
        let ghost prefix = cs@.take(k as int);
        assert(cs@.take(k + 1).drop_last() =~= prefix);
        let ghost runs_before = runs_view(spans@);
        let n = spans.len();
        if n > 0 && spans[n - 1].style == c.style {
            let mut last = spans.pop().unwrap();
            push_char(&mut last.content, c.character);
            spans.push(last);
            assert(runs_view(spans@) =~= runs_before.update(
                runs_before.len() - 1,
                (c.style, runs_before.last().1.push(c.character)),
            ));
        } else {
            let mut content = String::new();
            push_char(&mut content, c.character);
            spans.push(StyleRun { style: c.style, content });
            assert(runs_view(spans@) =~= runs_before.push((c.style, seq![c.character])));
        }
        match run {
            Some((id, start)) => {
                if c.link != Some(id) {
                    links.push((start, column, id));
                    run = match c.link {
                        Some(current) => Some((current, column)),
                        None => None,
                    };
                }
            },
            None => {
                run = match c.link {
                    Some(current) => Some((current, column)),
                    None => None,
                };
            },
        }
        column = column.saturating_add(c.width);
        k += 1;
    }
    assert(cs@.take(cs@.len() as int) =~= cs@);
    match run {
        Some((id, start)) => {
            links.push((start, column, id));
        },
        None => {},
    }
    WrappedLine { spans, links }
}


/// The characters of `spans`, in order, each tagged with its span's style
/// and link.
pub open spec fn span_chars(spans: Seq<RichSpan>) -> Seq<StyledChar>
    decreases spans.len(),
{
    if spans.len() == 0 {
        seq![]
    } else {
        let last = spans.last();
        span_chars(spans.drop_last()) + styled(last.content@, last.style, last.link)
    }
}

/// The characters of a plain line's runs, none of them linked.
pub open spec fn run_chars(runs: Seq<StyleRun>) -> Seq<StyledChar>
    decreases runs.len(),
{
    if runs.len() == 0 {
        seq![]
    } else {
        let last = runs.last();
        run_chars(runs.drop_last()) + styled(last.content@, last.style, None)
    }
}

/// Append the characters of `text`, tagged with `style` and `link`.
fn append_styled(chars: &mut Vec<StyledChar>, text: &str, style: usize, link: Option<usize>)
    ensures
        final(chars)@ == old(chars)@ + styled(text@, style, link),
{
    let tagged = styled_chars(text, style, link);
    let ghost before = chars@;
    let mut k: usize = 0;
    while k < tagged.len()
        invariant
            k <= tagged@.len(),
            tagged@ == styled(text@, style, link),
            chars@ == before + tagged@.take(k as int),
        decreases tagged@.len() - k,
    {
        chars.push(tagged[k]);
        k += 1;
        assert(chars@ =~= before + tagged@.take(k as int));
    }
    assert(tagged@.take(tagged@.len() as int) =~= tagged@);
}

/// The lines wrapping `cs` gives: hard (anywhere) or soft (at whitespace).
pub open spec fn wrapped_chars(cs: Seq<StyledChar>, width: int, hard_wrap: bool) -> Seq<Seq<StyledChar>> {
    if hard_wrap {
        spec_hard_wrap(cs, width)
    } else {
        spec_soft_wrap(cs, width)
    }
}

/// Wrap link-tagged spans to `width` columns, giving each display line with
/// its style runs and link regions. `hard_wrap` breaks anywhere (rules,
/// code); otherwise lines break at whitespace, and a word is split only when
/// it alone is wider than a line.
pub fn wrap_rich(spans: &Vec<RichSpan>, width: usize, hard_wrap: bool) -> (lines: Vec<WrappedLine>)
    ensures
        lines@.len() == wrapped_chars(span_chars(spans@), width as int, hard_wrap).len(),
        forall|i: int|
            0 <= i < lines@.len() ==> runs_view(#[trigger] lines@[i].spans@) == style_runs(
                wrapped_chars(span_chars(spans@), width as int, hard_wrap)[i],
            ),
        forall|i: int|
            0 <= i < lines@.len() ==> (#[trigger] lines@[i]).links@ == link_regions(
                wrapped_chars(span_chars(spans@), width as int, hard_wrap)[i],
            ),
{
    let mut chars: Vec<StyledChar> = Vec::new();
    let mut s: usize = 0;
    while s < spans.len()
        invariant
            s <= spans@.len(),
            chars@ == span_chars(spans@.take(s as int)),
        decreases spans@.len() - s,
    {
        assert(spans@.take(s + 1).drop_last() =~= spans@.take(s as int));
        append_styled(&mut chars, spans[s].content.as_str(), spans[s].style, spans[s].link);
        s += 1;
    }
    assert(spans@.take(spans@.len() as int) =~= spans@);
    let char_lines = if hard_wrap {
        hard_wrap_chars(chars.as_slice(), width)
    } else {
        soft_wrap_chars(chars.as_slice(), width)
    };
    let ghost target = wrapped_chars(span_chars(spans@), width as int, hard_wrap);
    let mut lines: Vec<WrappedLine> = Vec::new();
    let mut k: usize = 0;
    while k < char_lines.len()
        invariant
            k <= char_lines@.len(),
            lines_view(char_lines@) == target,
            lines@.len() == k,
            forall|i: int|
                0 <= i < k ==> runs_view(#[trigger] lines@[i].spans@) == style_runs(target[i])
                    && lines@[i].links@ == link_regions(target[i]),
        decreases char_lines@.len() - k,
    {
        let line = finalize_line(char_lines[k].as_slice());
        let ghost before = lines@;
        proof {
            assert(char_lines@[k as int]@ == target[k as int]);
        }
        lines.push(line);
        proof {
            assert forall|i: int| 0 <= i < k + 1 implies runs_view(#[trigger] lines@[i].spans@) == style_runs(target[i])
                && lines@[i].links@ == link_regions(target[i]) by {
                if i < k {
                    assert(lines@[i] == before[i]);
                }
            }
        }
        k += 1;
    }
    assert forall|i: int| 0 <= i < lines@.len() implies (#[trigger] lines@[i]).links@ == link_regions(
        target[i],
    ) by {
        assert(runs_view(lines@[i].spans@) == style_runs(target[i]));
    }
    lines
}

/// Word-wrap a plain line of style runs to `width` columns (no links): the
/// runs of each display line, merged by style.
pub fn wrap_line(line: &Vec<StyleRun>, width: usize) -> (lines: Vec<Vec<StyleRun>>)
    ensures
        lines@.len() == spec_soft_wrap(run_chars(line@), width as int).len(),
        forall|i: int|
            0 <= i < lines@.len() ==> runs_view(#[trigger] lines@[i]@) == style_runs(
                spec_soft_wrap(run_chars(line@), width as int)[i],
            ),
{
    let mut chars: Vec<StyledChar> = Vec::new();
    let mut s: usize = 0;
    while s < line.len()
        invariant
            s <= line@.len(),
            chars@ == run_chars(line@.take(s as int)),
        decreases line@.len() - s,
    {
        assert(line@.take(s + 1).drop_last() =~= line@.take(s as int));
        append_styled(&mut chars, line[s].content.as_str(), line[s].style, None);
        s += 1;
    }
    assert(line@.take(line@.len() as int) =~= line@);
    let char_lines = soft_wrap_chars(chars.as_slice(), width);
    let ghost target = spec_soft_wrap(run_chars(line@), width as int);
    let mut lines: Vec<Vec<StyleRun>> = Vec::new();
    let mut k: usize = 0;
    while k < char_lines.len()
        invariant
            k <= char_lines@.len(),
            lines_view(char_lines@) == target,
            lines@.len() == k,
            forall|i: int| 0 <= i < k ==> runs_view(#[trigger] lines@[i]@) == style_runs(target[i]),
        decreases char_lines@.len() - k,
    {
        let finished = finalize_line(char_lines[k].as_slice());
        lines.push(finished.spans);
        k += 1;
    }
    lines
}


/// Appending to the last line appends to the flattened text.
proof fn lemma_flatten_push_last(lines: Seq<Seq<StyledChar>>, c: StyledChar)
    requires
        lines.len() > 0,
    ensures
        push_last(lines, c).flatten() == lines.flatten().push(c),
{
    let init = lines.drop_last();
    assert(lines =~= init.push(lines.last()));
    assert(push_last(lines, c) =~= init.push(lines.last().push(c)));
    init.lemma_flatten_push(lines.last());
    init.lemma_flatten_push(lines.last().push(c));
    assert(init.flatten() + lines.last().push(c) =~= (init.flatten() + lines.last()).push(c));
}

/// Opening an empty line leaves the flattened text as it was.
proof fn lemma_flatten_push_empty(lines: Seq<Seq<StyledChar>>)
    ensures
        lines.push(seq![]).flatten() == lines.flatten(),
{
    lines.lemma_flatten_push(seq![]);
    assert(lines.flatten() + seq![] =~= lines.flatten());
}

/// Placing characters keeps them all, in order, after what was there.
proof fn lemma_place_chars_keeps(
    cs: Seq<StyledChar>,
    width: int,
    i: int,
    end: int,
    lines: Seq<Seq<StyledChar>>,
    used: int,
)
    requires
        0 <= i <= end <= cs.len(),
        lines.len() > 0,
    ensures
        place_chars(cs, width, i, end, lines, used).0.len() > 0,
        place_chars(cs, width, i, end, lines, used).0.flatten() == lines.flatten() + cs.subrange(i, end),
    decreases end - i,
{
    if i >= end {
        assert(lines.flatten() + cs.subrange(i, end) =~= lines.flatten());
    } else {
        let c = cs[i];
        let broke = used > 0 && sat_add(used, c.width as int) > width;
        let l2 = if broke { lines.push(seq![]) } else { lines };
        let u2 = if broke { 0 } else { used };
        lemma_flatten_push_empty(lines);
        lemma_flatten_push_last(l2, c);
        lemma_place_chars_keeps(cs, width, i + 1, end, push_last(l2, c), sat_add(u2, c.width as int));
        assert(lines.flatten().push(c) + cs.subrange(i + 1, end) =~= lines.flatten() + cs.subrange(i, end));
    }
}

/// Hard wrapping keeps every character, in order: the lines joined give the
/// input back.
pub proof fn lemma_hard_wrap_keeps_every_character(cs: Seq<StyledChar>, width: int)
    ensures
        spec_hard_wrap(cs, width).flatten() == cs,
{
    lemma_place_chars_keeps(cs, width, 0, cs.len() as int, seq![seq![]], 0);
    assert(seq![seq![]].flatten() + cs.subrange(0, cs.len() as int) =~= cs) by {
        lemma_flatten_push_empty(Seq::<Seq<StyledChar>>::empty());
        assert(Seq::<Seq<StyledChar>>::empty().push(seq![]) =~= seq![seq![]]);
    }
}


/// The columns a line of characters takes, summed with saturation.
pub open spec fn line_width(line: Seq<StyledChar>) -> int {
    width_sum(line, 0, line.len() as int)
}

/// A line fits `width`, or it overflows only by its last character: all
/// before it takes no columns.
pub open spec fn fits_but_for_one(line: Seq<StyledChar>, width: int) -> bool {
    line_width(line) <= width || (line.len() > 0 && line_width(line.drop_last()) == 0)
}

/// Sums over ranges where two sequences agree are equal.
proof fn lemma_width_sum_agree(a: Seq<StyledChar>, b: Seq<StyledChar>, from: int, to: int)
    requires
        forall|k: int| from <= k < to ==> a[k] == b[k],
    ensures
        width_sum(a, from, to) == width_sum(b, from, to),
    decreases to - from,
{
    if to > from {
        lemma_width_sum_agree(a, b, from, to - 1);
    }
}

/// Column sums are never negative.
proof fn lemma_width_sum_nonneg(cs: Seq<StyledChar>, from: int, to: int)
    ensures
        width_sum(cs, from, to) >= 0,
    decreases to - from,
{
    if to > from {
        lemma_width_sum_nonneg(cs, from, to - 1);
    }
}

/// The width of a line with one more character.
proof fn lemma_line_width_push(line: Seq<StyledChar>, c: StyledChar)
    ensures
        line_width(line.push(c)) == sat_add(line_width(line), c.width as int),
{
    lemma_width_sum_agree(line.push(c), line, 0, line.len() as int);
    lemma_width_sum_nonneg(line, 0, line.len() as int);
}

proof fn lemma_place_chars_fit(
    cs: Seq<StyledChar>,
    width: int,
    i: int,
    end: int,
    lines: Seq<Seq<StyledChar>>,
    used: int,
)
    requires
        0 <= i <= end <= cs.len(),
        0 <= width,
        lines.len() > 0,
        forall|k: int| 0 <= k < lines.len() ==> fits_but_for_one(#[trigger] lines[k], width),
        line_width(lines.last()) == used,
    ensures
        forall|k: int|
            0 <= k < place_chars(cs, width, i, end, lines, used).0.len() ==> fits_but_for_one(
                #[trigger] place_chars(cs, width, i, end, lines, used).0[k],
                width,
            ),
    decreases end - i,
{
    if i < end {
        let c = cs[i];
        let broke = used > 0 && sat_add(used, c.width as int) > width;
        let l2 = if broke { lines.push(seq![]) } else { lines };
        let u2 = if broke { 0 } else { used };
        assert(line_width(Seq::<StyledChar>::empty()) == 0);
        assert(forall|k: int| 0 <= k < l2.len() ==> fits_but_for_one(#[trigger] l2[k], width));
        assert(line_width(l2.last()) == u2);
        let l3 = push_last(l2, c);
        lemma_line_width_push(l2.last(), c);
        lemma_width_sum_nonneg(l2.last(), 0, l2.last().len() as int);
        assert(l2.last().push(c).drop_last() =~= l2.last());
        assert(fits_but_for_one(l3.last(), width));
        assert(forall|k: int| 0 <= k < l3.len() ==> fits_but_for_one(#[trigger] l3[k], width)) by {
            assert forall|k: int| 0 <= k < l3.len() implies fits_but_for_one(#[trigger] l3[k], width) by {
                if k < l3.len() - 1 {
                    assert(l3[k] == l2[k]);
                }
            }
        }
        lemma_place_chars_fit(cs, width, i + 1, end, l3, sat_add(u2, c.width as int));
        assert(place_chars(cs, width, i, end, lines, used) == place_chars(
            cs,
            width,
            i + 1,
            end,
            l3,
            sat_add(u2, c.width as int),
        ));
    }
}

/// A hard-wrapped line fits the width, but for a line whose last character
/// alone overflows it (everything before it taking no columns).
pub proof fn lemma_hard_wrap_lines_fit(cs: Seq<StyledChar>, width: usize)
    ensures
        forall|k: int|
            0 <= k < spec_hard_wrap(cs, width as int).len() ==> fits_but_for_one(
                #[trigger] spec_hard_wrap(cs, width as int)[k],
                width as int,
            ),
{
    let start: Seq<Seq<StyledChar>> = seq![seq![]];
    assert(line_width(start[0]) == 0);
    assert(fits_but_for_one(start[0], width as int));
    lemma_place_chars_fit(cs, width as int, 0, cs.len() as int, start, 0);
}


/// The characters of `cs` that are not whitespace, in order.
pub open spec fn visible(cs: Seq<StyledChar>) -> Seq<StyledChar>
    decreases cs.len(),
{
    if cs.len() == 0 {
        seq![]
    } else if whitespace(cs.last().character) {
        visible(cs.drop_last())
    } else {
        visible(cs.drop_last()).push(cs.last())
    }
}

proof fn lemma_visible_add(a: Seq<StyledChar>, b: Seq<StyledChar>)
    ensures
        visible(a + b) == visible(a) + visible(b),
    decreases b.len(),
{
    if b.len() == 0 {
        assert(a + b =~= a);
        assert(visible(a) + visible(b) =~= visible(a));
    } else {
        assert((a + b).drop_last() =~= a + b.drop_last());
        assert((a + b).last() == b.last());
        lemma_visible_add(a, b.drop_last());
        if !whitespace(b.last().character) {
            assert(visible(a) + visible(b.drop_last()).push(b.last()) =~= (visible(a) + visible(
                b.drop_last(),
            )).push(b.last()));
        }
    }
}

proof fn lemma_visible_blank(cs: Seq<StyledChar>)
    requires
        forall|k: int| 0 <= k < cs.len() ==> whitespace(#[trigger] cs[k].character),
    ensures
        visible(cs) == Seq::<StyledChar>::empty(),
    decreases cs.len(),
{
    if cs.len() > 0 {
        assert(whitespace(cs[cs.len() - 1].character));
        lemma_visible_blank(cs.drop_last());
    }
}

/// Appending a stretch to the last line appends it to the flattened text.
proof fn lemma_flatten_extend_last(lines: Seq<Seq<StyledChar>>, extra: Seq<StyledChar>)
    requires
        lines.len() > 0,
    ensures
        lines.update(lines.len() - 1, lines.last() + extra).flatten() == lines.flatten() + extra,
{
    let init = lines.drop_last();
    assert(lines =~= init.push(lines.last()));
    assert(lines.update(lines.len() - 1, lines.last() + extra) =~= init.push(lines.last() + extra));
    init.lemma_flatten_push(lines.last());
    init.lemma_flatten_push(lines.last() + extra);
    assert(init.flatten() + (lines.last() + extra) =~= (init.flatten() + lines.last()) + extra);
}

proof fn lemma_soft_wrap_keeps_visible(
    cs: Seq<StyledChar>,
    width: int,
    cursor: int,
    lines: Seq<Seq<StyledChar>>,
    used: int,
    pending: Option<(int, int)>,
)
    requires
        0 <= cursor <= cs.len(),
        lines.len() > 0,
        pending matches Some((a, b)) ==> 0 <= a <= b <= cs.len() && forall|k: int|
            a <= k < b ==> whitespace(#[trigger] cs[k].character),
    ensures
        visible(soft_wrap_from(cs, width, cursor, lines, used, pending).flatten()) == visible(
            lines.flatten(),
        ) + visible(cs.subrange(cursor, cs.len() as int)),
    decreases cs.len() - cursor,
{
    let rest = cs.subrange(cursor, cs.len() as int);
    if cursor >= cs.len() {
        assert(visible(rest) =~= Seq::<StyledChar>::empty());
        assert(visible(lines.flatten()) + visible(rest) =~= visible(lines.flatten()));
    } else {
        let end = run_end(cs, cursor);
        lemma_run_end(cs, cursor);
        assert(rest =~= cs.subrange(cursor, end) + cs.subrange(end, cs.len() as int));
        lemma_visible_add(cs.subrange(cursor, end), cs.subrange(end, cs.len() as int));
        if whitespace(cs[cursor].character) {
            lemma_visible_blank(cs.subrange(cursor, end));
            lemma_soft_wrap_keeps_visible(cs, width, end, lines, used, Some((cursor, end)));
            assert(visible(rest) =~= visible(cs.subrange(end, cs.len() as int)));
        } else {
            let ws = match pending {
                Some((a, b)) => width_sum(cs, a, b),
                None => 0,
            };
            let tw = width_sum(cs, cursor, end);
            let broke = used > 0 && sat_add(sat_add(used, ws), tw) > width;
            let l2 = if broke {
                lines.push(seq![])
            } else {
                match pending {
                    Some((a, b)) => lines.update(lines.len() - 1, lines.last() + cs.subrange(a, b)),
                    None => lines,
                }
            };
            let u2 = if broke {
                0
            } else {
                match pending {
                    Some(_) => sat_add(used, ws),
                    None => used,
                }
            };
            assert(visible(l2.flatten()) == visible(lines.flatten())) by {
                if broke {
                    lemma_flatten_push_empty(lines);
                } else {
                    match pending {
                        Some((a, b)) => {
                            lemma_flatten_extend_last(lines, cs.subrange(a, b));
                            lemma_visible_add(lines.flatten(), cs.subrange(a, b));
                            lemma_visible_blank(cs.subrange(a, b));
                            assert(visible(lines.flatten()) + Seq::<StyledChar>::empty() =~= visible(
                                lines.flatten(),
                            ));
                        },
                        None => {},
                    }
                }
            }
            let placed = place_chars(cs, width, cursor, end, l2, u2);
            lemma_place_chars_keeps(cs, width, cursor, end, l2, u2);
            lemma_visible_add(l2.flatten(), cs.subrange(cursor, end));
            lemma_soft_wrap_keeps_visible(cs, width, end, placed.0, placed.1, None);
            assert(soft_wrap_from(cs, width, cursor, lines, used, pending) == soft_wrap_from(
                cs,
                width,
                end,
                placed.0,
                placed.1,
                None,
            ));
            assert(visible(lines.flatten()) + visible(rest) =~= visible(lines.flatten()) + visible(
                cs.subrange(cursor, end),
            ) + visible(cs.subrange(end, cs.len() as int)));
        }
    }
}

/// Soft wrapping drops whitespace only: the characters that are not
/// whitespace all come out, in order.
pub proof fn lemma_soft_wrap_keeps_every_word(cs: Seq<StyledChar>, width: int)
    ensures
        visible(spec_soft_wrap(cs, width).flatten()) == visible(cs),
{
    let start: Seq<Seq<StyledChar>> = seq![seq![]];
    lemma_soft_wrap_keeps_visible(cs, width, 0, start, 0, None);
    lemma_flatten_push_empty(Seq::<Seq<StyledChar>>::empty());
    assert(Seq::<Seq<StyledChar>>::empty().push(seq![]) =~= start);
    assert(Seq::<Seq<StyledChar>>::empty().flatten() =~= Seq::<StyledChar>::empty());
    assert(visible(start.flatten()) =~= Seq::<StyledChar>::empty());
    assert(cs.subrange(0, cs.len() as int) =~= cs);
    assert(Seq::<StyledChar>::empty() + visible(cs) =~= visible(cs));
}



/// A line of nothing but whitespace and characters that take no columns.
pub open spec fn blank_line(line: Seq<StyledChar>) -> bool {
    forall|k: int| 0 <= k < line.len() ==> whitespace(#[trigger] line[k].character) || line[k].width == 0
}

/// A soft-wrapped line fits `width`, or overflows only by its last
/// character, or holds nothing but whitespace and zero-width characters.
pub open spec fn soft_fits(line: Seq<StyledChar>, width: int) -> bool {
    fits_but_for_one(line, width) || blank_line(line)
}

/// Column sums never exceed `usize::MAX`.
proof fn lemma_width_sum_capped(cs: Seq<StyledChar>, from: int, to: int)
    ensures
        0 <= width_sum(cs, from, to) <= usize::MAX,
    decreases to - from,
{
    if to > from {
        lemma_width_sum_capped(cs, from, to - 1);
    }
}

/// A line that takes no columns has no character that takes any.
proof fn lemma_zero_width_line(line: Seq<StyledChar>)
    requires
        line_width(line) == 0,
    ensures
        forall|k: int| 0 <= k < line.len() ==> (#[trigger] line[k]).width == 0,
    decreases line.len(),
{
    if line.len() > 0 {
        let init = line.drop_last();
        lemma_width_sum_agree(line, init, 0, init.len() as int);
        lemma_width_sum_capped(line, 0, init.len() as int);
        assert(line_width(init) == 0);
        lemma_zero_width_line(init);
        assert forall|k: int| 0 <= k < line.len() implies (#[trigger] line[k]).width == 0 by {
            if k < init.len() {
                assert(line[k] == init[k]);
            }
        }
    }
}

/// The width of a line with a stretch of `cs` appended.
proof fn lemma_line_width_extend(line: Seq<StyledChar>, cs: Seq<StyledChar>, a: int, b: int)
    requires
        0 <= a <= b <= cs.len(),
    ensures
        line_width(line + cs.subrange(a, b)) == sat_add(line_width(line), width_sum(cs, a, b)),
    decreases b - a,
{
    lemma_width_sum_capped(line, 0, line.len() as int);
    if b == a {
        assert(line + cs.subrange(a, b) =~= line);
    } else {
        lemma_line_width_extend(line, cs, a, b - 1);
        assert(line + cs.subrange(a, b) =~= (line + cs.subrange(a, b - 1)).push(cs[b - 1]));
        lemma_line_width_push(line + cs.subrange(a, b - 1), cs[b - 1]);
        lemma_width_sum_capped(cs, a, b - 1);
    }
}

/// Placing characters keeps every line fitting (in the soft sense), and the
/// last line's width in step with the columns used.
proof fn lemma_place_chars_soft_fit(
    cs: Seq<StyledChar>,
    width: int,
    i: int,
    end: int,
    lines: Seq<Seq<StyledChar>>,
    used: int,
)
    requires
        0 <= i <= end <= cs.len(),
        0 <= width,
        lines.len() > 0,
        forall|k: int| 0 <= k < lines.len() ==> soft_fits(#[trigger] lines[k], width),
        line_width(lines.last()) == used,
    ensures
        place_chars(cs, width, i, end, lines, used).0.len() > 0,
        line_width(place_chars(cs, width, i, end, lines, used).0.last()) == place_chars(
            cs,
            width,
            i,
            end,
            lines,
            used,
        ).1,
        forall|k: int|
            0 <= k < place_chars(cs, width, i, end, lines, used).0.len() ==> soft_fits(
                #[trigger] place_chars(cs, width, i, end, lines, used).0[k],
                width,
            ),
    decreases end - i,
{
    if i < end {
        let c = cs[i];
        let broke = used > 0 && sat_add(used, c.width as int) > width;
        let l2 = if broke { lines.push(seq![]) } else { lines };
        let u2 = if broke { 0 } else { used };
        assert(line_width(Seq::<StyledChar>::empty()) == 0);
        assert(fits_but_for_one(Seq::<StyledChar>::empty(), width));
        assert(forall|k: int| 0 <= k < l2.len() ==> soft_fits(#[trigger] l2[k], width));
        assert(line_width(l2.last()) == u2);
        let l3 = push_last(l2, c);
        lemma_line_width_push(l2.last(), c);
        lemma_width_sum_nonneg(l2.last(), 0, l2.last().len() as int);
        assert(l2.last().push(c).drop_last() =~= l2.last());
        assert(fits_but_for_one(l3.last(), width));
        assert(forall|k: int| 0 <= k < l3.len() ==> soft_fits(#[trigger] l3[k], width)) by {
            assert forall|k: int| 0 <= k < l3.len() implies soft_fits(#[trigger] l3[k], width) by {
                if k < l3.len() - 1 {
                    assert(l3[k] == l2[k]);
                }
            }
        }
        lemma_place_chars_soft_fit(cs, width, i + 1, end, l3, sat_add(u2, c.width as int));
        assert(place_chars(cs, width, i, end, lines, used) == place_chars(
            cs,
            width,
            i + 1,
            end,
            l3,
            sat_add(u2, c.width as int),
        ));
    }
}

proof fn lemma_soft_wrap_from_fit(
    cs: Seq<StyledChar>,
    width: int,
    cursor: int,
    lines: Seq<Seq<StyledChar>>,
    used: int,
    pending: Option<(int, int)>,
)
    requires
        0 <= width,
        0 <= cursor <= cs.len(),
        lines.len() > 0,
        forall|k: int| 0 <= k < lines.len() ==> soft_fits(#[trigger] lines[k], width),
        line_width(lines.last()) == used,
        pending matches Some((a, b)) ==> 0 <= a <= b <= cs.len() && forall|k: int|
            a <= k < b ==> whitespace(#[trigger] cs[k].character),
    ensures
        forall|k: int|
            0 <= k < soft_wrap_from(cs, width, cursor, lines, used, pending).len() ==> soft_fits(
                #[trigger] soft_wrap_from(cs, width, cursor, lines, used, pending)[k],
                width,
            ),
    decreases cs.len() - cursor,
{
    if cursor < cs.len() {
        let end = run_end(cs, cursor);
        lemma_run_end(cs, cursor);
        if whitespace(cs[cursor].character) {
            lemma_soft_wrap_from_fit(cs, width, end, lines, used, Some((cursor, end)));
            assert(soft_wrap_from(cs, width, cursor, lines, used, pending) == soft_wrap_from(
                cs,
                width,
                end,
                lines,
                used,
                Some((cursor, end)),
            ));
        } else {
            let ws = match pending {
                Some((a, b)) => width_sum(cs, a, b),
                None => 0,
            };
            let tw = width_sum(cs, cursor, end);
            let broke = used > 0 && sat_add(sat_add(used, ws), tw) > width;
            let l2 = if broke {
                lines.push(seq![])
            } else {
                match pending {
                    Some((a, b)) => lines.update(lines.len() - 1, lines.last() + cs.subrange(a, b)),
                    None => lines,
                }
            };
            let u2 = if broke {
                0
            } else {
                match pending {
                    Some(_) => sat_add(used, ws),
                    None => used,
                }
            };
            lemma_width_sum_capped(lines.last(), 0, lines.last().len() as int);
            assert(forall|k: int| 0 <= k < l2.len() ==> soft_fits(#[trigger] l2[k], width) && line_width(l2.last()) == u2) by {
                assert(line_width(Seq::<StyledChar>::empty()) == 0);
                assert(fits_but_for_one(Seq::<StyledChar>::empty(), width));
                if !broke {
                    match pending {
                        Some((a, b)) => {
                            let old_last = lines.last();
                            let new_last = old_last + cs.subrange(a, b);
                            lemma_line_width_extend(old_last, cs, a, b);
                            lemma_width_sum_capped(cs, a, b);
                            lemma_width_sum_capped(cs, cursor, end);
                            if used > 0 {
                                assert(sat_add(used, ws) <= width);
                                assert(fits_but_for_one(new_last, width));
                            } else {
                                lemma_zero_width_line(old_last);
                                assert forall|k: int| 0 <= k < new_last.len() implies whitespace(
                                    #[trigger] new_last[k].character,
                                ) || new_last[k].width == 0 by {
                                    if k < old_last.len() {
                                        assert(new_last[k] == old_last[k]);
                                    } else {
                                        assert(new_last[k] == cs[a + k - old_last.len()]);
                                    }
                                }
                                assert(blank_line(new_last));
                            }
                            assert forall|k: int| 0 <= k < l2.len() implies soft_fits(#[trigger] l2[k], width) by {
                                if k < l2.len() - 1 {
                                    assert(l2[k] == lines[k]);
                                }
                            }
                        },
                        None => {},
                    }
                }
            }
            let placed = place_chars(cs, width, cursor, end, l2, u2);
            lemma_place_chars_soft_fit(cs, width, cursor, end, l2, u2);
            lemma_soft_wrap_from_fit(cs, width, end, placed.0, placed.1, None);
            assert(soft_wrap_from(cs, width, cursor, lines, used, pending) == soft_wrap_from(
                cs,
                width,
                end,
                placed.0,
                placed.1,
                None,
            ));
        }
    }
}

/// A soft-wrapped line fits the width, but for a line whose last character
/// alone overflows it (everything before it taking no columns), and a line
/// of nothing but whitespace and zero-width characters: whitespace that
/// opens the text, or follows only characters that take no columns, is kept
/// however wide it is.
pub proof fn lemma_soft_wrap_lines_fit(cs: Seq<StyledChar>, width: usize)
    ensures
        forall|k: int|
            0 <= k < spec_soft_wrap(cs, width as int).len() ==> soft_fits(
                #[trigger] spec_soft_wrap(cs, width as int)[k],
                width as int,
            ),
{
    let start: Seq<Seq<StyledChar>> = seq![seq![]];
    assert(line_width(start[0]) == 0);
    assert(fits_but_for_one(start[0], width as int));
    assert(soft_fits(start[0], width as int));
    lemma_soft_wrap_from_fit(cs, width as int, 0, start, 0, None);
}

/// The text of a sequence of style runs, joined.
pub open spec fn runs_text(runs: Seq<(usize, Seq<char>)>) -> Seq<char> {
    runs.map_values(|r: (usize, Seq<char>)| r.1).flatten()
}

/// The characters of `cs` without their tags.
pub open spec fn chars_text(cs: Seq<StyledChar>) -> Seq<char> {
    cs.map_values(|c: StyledChar| c.character)
}

/// Merging into style runs keeps the text, in order; no run is empty; two
/// neighbouring runs never share a style; and the last run has the style of
/// the last character.
pub proof fn lemma_style_runs_partition_the_line(cs: Seq<StyledChar>)
    ensures
        runs_text(style_runs(cs)) == chars_text(cs),
        style_runs(cs).len() == 0 <==> cs.len() == 0,
        forall|k: int| 0 <= k < style_runs(cs).len() ==> (#[trigger] style_runs(cs)[k]).1.len() > 0,
        forall|k: int|
            0 < k < style_runs(cs).len() ==> (#[trigger] style_runs(cs)[k]).0 != style_runs(cs)[k
                - 1].0,
        cs.len() > 0 ==> style_runs(cs).last().0 == cs.last().style,
    decreases cs.len(),
{
    if cs.len() == 0 {
        assert(runs_text(style_runs(cs)) =~= chars_text(cs)) by {
            assert(style_runs(cs).map_values(|r: (usize, Seq<char>)| r.1) =~= Seq::<Seq<char>>::empty());
        }
    } else {
        let init = cs.drop_last();
        let c = cs.last();
        let before = style_runs(init);
        lemma_style_runs_partition_the_line(init);
        let texts = before.map_values(|r: (usize, Seq<char>)| r.1);
        assert(chars_text(cs) =~= chars_text(init).push(c.character));
        if before.len() > 0 && before.last().0 == c.style {
            let after = before.update(before.len() - 1, (c.style, before.last().1.push(c.character)));
            let t0 = texts.drop_last();
            assert(texts =~= t0.push(before.last().1));
            assert(after.map_values(|r: (usize, Seq<char>)| r.1) =~= t0.push(before.last().1.push(c.character)));
            t0.lemma_flatten_push(before.last().1);
            t0.lemma_flatten_push(before.last().1.push(c.character));
            assert(t0.flatten() + before.last().1.push(c.character) =~= (t0.flatten() + before.last().1).push(
                c.character,
            ));
        } else {
            let after = before.push((c.style, seq![c.character]));
            assert(after.map_values(|r: (usize, Seq<char>)| r.1) =~= texts.push(seq![c.character]));
            texts.lemma_flatten_push(seq![c.character]);
            assert(texts.flatten() + seq![c.character] =~= texts.flatten().push(c.character));
        }
    }
}

} // verus!
