//! The text the markdown renderer writes around what the source holds: the
//! `==highlight==` runs of a text event, list markers and their numbering,
//! the frame header and lines of a code block, the ` (target)` trailer of a
//! link, and the rail and indent prefixed to a line inside quotes and lists.
use vstd::prelude::*;
use crate::markdown::{is_whitespace_char, trim, trim_whitespace, whitespace};
use crate::wrap::strings_view;
use crate::text::{decimal, decimal_string, display_width, push_char, repeat_char, repeat_string, str_width, string_of};

verus! {

// ── Highlights ───────────────────────────────────────────────────────────────

/// Where the first `==` at or after `from` starts in `s`.
pub open spec fn first_pair(s: Seq<char>, from: int) -> Option<int>
    decreases s.len() - from,
{
    if from < 0 || from + 1 >= s.len() {
        None
    } else if s[from] == '=' && s[from + 1] == '=' {
        Some(from)
    } else {
        first_pair(s, from + 1)
    }
}

pub proof fn lemma_first_pair_bounds(s: Seq<char>, from: int)
    requires
        from >= 0,
    ensures
        first_pair(s, from) matches Some(i) ==> from <= i && i + 1 < s.len() && s[i] == '=' && s[i + 1] == '=',
        first_pair(s, from) is None ==> forall|p: int|
            from <= p && p + 1 < s.len() ==> !(#[trigger] s[p] == '=' && s[p + 1] == '='),
    decreases s.len() - from,
{
    if from >= 0 && from + 1 < s.len() && !(s[from] == '=' && s[from + 1] == '=') {
        lemma_first_pair_bounds(s, from + 1);
    }
}

/// `text` as a one-segment list, or nothing when it is empty.
pub open spec fn segment(text: Seq<char>, highlighted: bool) -> Seq<(Seq<char>, bool)> {
    if text.len() == 0 { seq![] } else { seq![(text, highlighted)] }
}

/// A text event cut at its `==` marks: the text between them alternates
/// between plain and highlighted, starting as `open` says; empty pieces are
/// dropped. Also whether a highlight is open at the end.
pub open spec fn highlight_split(s: Seq<char>, open: bool) -> (Seq<(Seq<char>, bool)>, bool)
    decreases s.len(),
{
    match first_pair(s, 0) {
        None => (segment(s, open), open),
        Some(i) => {
            proof {
                lemma_first_pair_bounds(s, 0);
            }
            let (rest, end) = highlight_split(s.skip(i + 2), !open);
            (segment(s.take(i), open) + rest, end)
        },
    }
}

pub open spec fn segments_view(segments: Seq<(String, bool)>) -> Seq<(Seq<char>, bool)> {
    segments.map_values(|p: (String, bool)| (p.0@, p.1))
}

proof fn lemma_first_pair_skip(s: Seq<char>, k: int, from: int)
    requires
        0 <= k <= s.len(),
        0 <= from,
    ensures
        first_pair(s.skip(k), from) == match first_pair(s, k + from) {
            Some(i) => Some(i - k),
            None => None,
        },
    decreases s.len() - k - from,
{
    let t = s.skip(k);
    if from + 1 < t.len() {
        assert(t[from] == s[k + from]);
        assert(t[from + 1] == s[k + from + 1]);
        if !(t[from] == '=' && t[from + 1] == '=') {
            lemma_first_pair_skip(s, k, from + 1);
        }
    }
}

/// Split a text event at its `==` marks, as the renderer styles it: each
/// piece with whether it is highlighted, and whether a highlight is still
/// open after it.
pub fn highlight_segments(text: &str, open: bool) -> (result: (Vec<(String, bool)>, bool))
    ensures
        segments_view(result.0@) == highlight_split(text@, open).0,
        result.1 == highlight_split(text@, open).1,
{
    let ghost s = text@;
    let n = text.unicode_len();
    let mut segments: Vec<(String, bool)> = Vec::new();
    let mut current = String::new();
    let mut highlighted = open;
    let mut start: usize = 0;
    let mut i: usize = 0;
    assert(s.skip(0) =~= s);
    assert(segments_view(segments@) =~= Seq::<(Seq<char>, bool)>::empty());
    assert(current@ =~= s.subrange(0, 0));
    while i < n
        invariant
            s == text@,
            n == s.len(),
            start <= i <= n,
            current@ == s.subrange(start as int, i as int),
            first_pair(s, start as int) == first_pair(s, i as int),
            (segments_view(segments@) + highlight_split(s.skip(start as int), highlighted).0, highlight_split(
                s.skip(start as int),
                highlighted,
            ).1) == highlight_split(s, open),
        decreases n - i,
    {
        let c = text.get_char(i);
        if c == '=' && i + 1 < n && text.get_char(i + 1) == '=' {
            proof {
                let t = s.skip(start as int);
                lemma_first_pair_skip(s, start as int, 0);
                assert(first_pair(t, 0) == Some(i - start));
                lemma_first_pair_bounds(t, 0);
                assert(t.take(i - start) =~= current@);
                assert(t.skip(i - start + 2) =~= s.skip(i + 2));
            }
            let ghost before = segments_view(segments@);
            if current.unicode_len() > 0 {
                segments.push((current, highlighted));
                assert(segments_view(segments@) =~= before + segment(current@, highlighted));
            } else {
                assert(segments_view(segments@) =~= before + segment(current@, highlighted));
            }
            current = String::new();
            highlighted = !highlighted;
            i = i + 2;
            start = i;
            proof {
                assert(s.subrange(start as int, i as int) =~= Seq::<char>::empty());
            }
        } else {
            proof {
                assert(first_pair(s, i as int) == first_pair(s, i + 1));
            }
            push_char(&mut current, c);
            i = i + 1;
            assert(current@ =~= s.subrange(start as int, i as int));
        }
    }
    proof {
        let t = s.skip(start as int);
        lemma_first_pair_skip(s, start as int, 0);
        assert(first_pair(s, n as int) is None);
        assert(t =~= current@);
    }
    let ghost before = segments_view(segments@);
    if current.unicode_len() > 0 {
        segments.push((current, highlighted));
    }
    assert(segments_view(segments@) =~= before + segment(s.skip(start as int), highlighted));
    (segments, highlighted)
}


// ── Lists ────────────────────────────────────────────────────────────────────

/// The marker of a list item and the number the next item takes: `3. ` for
/// a numbered list (the next number saturating), `- ` for a bulleted one.
pub open spec fn spec_list_marker(next: Option<u64>) -> (Seq<char>, Option<u64>) {
    match next {
        Some(n) => (decimal(n as nat) + ". "@, Some(if n == u64::MAX { n } else { (n + 1) as u64 })),
        None => ("- "@, None),
    }
}

pub fn list_marker(next: Option<u64>) -> (result: (String, Option<u64>))
    ensures
        result.0@ == spec_list_marker(next).0,
        result.1 == spec_list_marker(next).1,
{
    match next {
        Some(n) => {
            let mut marker = decimal_string(n);
            marker.append(". ");
            (marker, Some(n.saturating_add(1)))
        },
        None => (string_of("- "), None),
    }
}

/// An open block container of the renderer.
#[derive(Debug)]
pub enum Container {
    Quote,
    List(ListState),
}

/// An open list: the next item's number (for a numbered list), the current
/// item's marker, whether the marker is still to be drawn on the item's
/// first line, and whether an item is open.
#[derive(Debug)]
pub struct ListState {
    pub next: Option<u64>,
    pub marker: String,
    pub first_line: bool,
    pub in_item: bool,
}

/// A container as a plain value.
pub enum ContainerView {
    Quote,
    List { next: Option<u64>, marker: Seq<char>, first_line: bool, in_item: bool },
}

pub open spec fn container_view(c: Container) -> ContainerView {
    match c {
        Container::Quote => ContainerView::Quote,
        Container::List(l) => ContainerView::List {
            next: l.next,
            marker: l.marker@,
            first_line: l.first_line,
            in_item: l.in_item,
        },
    }
}

pub open spec fn containers_view(cs: Seq<Container>) -> Seq<ContainerView> {
    cs.map_values(|c: Container| container_view(c))
}

/// Open an item in `list`: its marker from the list's numbering, drawn on
/// the item's first line.
pub open spec fn spec_start_item(next: Option<u64>) -> ContainerView {
    let (marker, after) = spec_list_marker(next);
    ContainerView::List { next: after, marker, first_line: true, in_item: true }
}

pub fn start_item(list: &mut ListState)
    ensures
        container_view(Container::List(*final(list))) == spec_start_item(old(list).next),
{
    let (marker, next) = list_marker(list.next);
    list.marker = marker;
    list.next = next;
    list.first_line = true;
    list.in_item = true;
}

/// The prefix one container adds to a line: a quote's rail, and inside an
/// open list item its marker (on the item's first line, when markers are
/// drawn) or as many spaces as the marker is wide.
pub open spec fn container_piece(c: ContainerView, markers: bool) -> Seq<char> {
    match c {
        ContainerView::Quote => "│ "@,
        ContainerView::List { marker, first_line, in_item, .. } => if !in_item {
            seq![]
        } else if markers && first_line {
            marker
        } else {
            repeat_char(' ', display_width(marker))
        },
    }
}

/// A container after a line was prefixed: a list's marker is drawn once.
pub open spec fn container_after(c: ContainerView, markers: bool) -> ContainerView {
    match c {
        ContainerView::List { next, marker, first_line, in_item } => if in_item && markers && first_line {
            ContainerView::List { next, marker, first_line: false, in_item }
        } else {
            c
        },
        _ => c,
    }
}

/// The prefix the first `k` containers give a line, outermost first.
pub open spec fn prefix_upto(cs: Seq<ContainerView>, markers: bool, k: int) -> Seq<char>
    decreases k,
{
    if k <= 0 { seq![] } else { prefix_upto(cs, markers, k - 1) + container_piece(cs[k - 1], markers) }
}

/// The prefix of a line inside the open containers, outermost first; with
/// `markers`, each open item's marker is used up on the line it starts.
pub fn container_prefix(containers: &mut Vec<Container>, markers: bool) -> (prefix: String)
    ensures
        prefix@ == prefix_upto(containers_view(old(containers)@), markers, old(containers)@.len() as int),
        containers_view(final(containers)@) == containers_view(old(containers)@).map_values(
            |c: ContainerView| container_after(c, markers),
        ),
{
    let ghost start = containers_view(containers@);
    let mut prefix = String::new();
    let mut k: usize = 0;
    while k < containers.len()
        invariant
            k <= containers@.len(),
            start.len() == containers@.len(),
            prefix@ == prefix_upto(start, markers, k as int),
            forall|i: int| 0 <= i < k ==> #[trigger] containers_view(containers@)[i] == container_after(start[i], markers),
            forall|i: int| k <= i < containers@.len() ==> #[trigger] containers_view(containers@)[i] == start[i],
        decreases containers@.len() - k,
    {
        let ghost before = containers_view(containers@);
        let ghost vec_before = containers@;
        assert(before[k as int] == container_view(vec_before[k as int]));
        let taken = containers.remove(k);
        assert(container_view(taken) == start[k as int]);
        let ghost prefix_before = prefix@;
        let updated = match taken {
            Container::Quote => {
                prefix.append("│ ");
                Container::Quote
            },
            Container::List(list) => {
                if list.in_item {
                    if markers && list.first_line {
                        prefix.append(list.marker.as_str());
                        Container::List(ListState { first_line: false, ..list })
                    } else {
                        let spaces = repeat_string(' ', str_width(list.marker.as_str()));
                        prefix.append(spaces.as_str());
                        Container::List(list)
                    }
                } else {
                    Container::List(list)
                }
            },
        };
        proof {
            reveal_strlit("│ ");
            assert(prefix@ =~= prefix_before + container_piece(start[k as int], markers));
            assert(container_view(updated) == container_after(start[k as int], markers));
        }
        containers.insert(k, updated);
        proof {
            assert(containers_view(containers@) =~= before.update(k as int, container_after(start[k as int], markers)));
        }
        k += 1;
        assert(prefix@ =~= prefix_upto(start, markers, k as int));
    }
    assert(containers_view(containers@) =~= start.map_values(|c: ContainerView| container_after(c, markers)));
    prefix
}


// ── Code blocks ──────────────────────────────────────────────────────────────

/// The first index at or after `i` where `s` holds no whitespace (or its
/// end).
pub open spec fn skip_white(s: Seq<char>, i: int) -> int
    decreases s.len() - i,
{
    if i < 0 || i >= s.len() || !whitespace(s[i]) { i } else { skip_white(s, i + 1) }
}

/// The first index at or after `i` where `s` holds whitespace (or its end).
pub open spec fn word_end(s: Seq<char>, i: int) -> int
    decreases s.len() - i,
{
    if i < 0 || i >= s.len() || whitespace(s[i]) { i } else { word_end(s, i + 1) }
}

proof fn lemma_skip_white(s: Seq<char>, i: int)
    requires
        0 <= i <= s.len(),
    ensures
        i <= skip_white(s, i) <= s.len(),
    decreases s.len() - i,
{
    if i < s.len() && whitespace(s[i]) {
        lemma_skip_white(s, i + 1);
    }
}

proof fn lemma_word_end(s: Seq<char>, i: int)
    requires
        0 <= i <= s.len(),
    ensures
        i <= word_end(s, i) <= s.len(),
    decreases s.len() - i,
{
    if i < s.len() && !whitespace(s[i]) {
        lemma_word_end(s, i + 1);
    }
}

/// The first whitespace-separated word of `s` (empty when there is none):
/// a fenced code block's language.
pub open spec fn first_word(s: Seq<char>) -> Seq<char> {
    let start = skip_white(s, 0);
    s.subrange(start, word_end(s, start))
}

/// The header of a code block's frame: the corner, with the language after
/// it when the fence names one.
pub open spec fn spec_code_header(info: Seq<char>) -> Seq<char> {
    if first_word(info).len() == 0 { "╭─"@ } else { "╭─ "@ + first_word(info) }
}

/// A code block's language: the first word of its fence's info string.
pub fn code_language(info: &str) -> (language: String)
    ensures
        language@ == first_word(info@),
{
    let n = info.unicode_len();
    let mut start: usize = 0;
    proof {
        lemma_skip_white(info@, 0);
    }
    while start < n && is_whitespace_char(info.get_char(start))
        invariant
            n == info@.len(),
            start <= skip_white(info@, 0) <= n,
            skip_white(info@, start as int) == skip_white(info@, 0),
        decreases n - start,
    {
        proof {
            lemma_skip_white(info@, start + 1);
        }
        start += 1;
    }
    let mut end = start;
    let mut language = String::new();
    proof {
        lemma_word_end(info@, start as int);
    }
    while end < n && !is_whitespace_char(info.get_char(end))
        invariant
            n == info@.len(),
            start <= end <= word_end(info@, start as int) <= n,
            word_end(info@, end as int) == word_end(info@, start as int),
            language@ == info@.subrange(start as int, end as int),
        decreases n - end,
    {
        proof {
            lemma_word_end(info@, end + 1);
        }
        push_char(&mut language, info.get_char(end));
        end += 1;
        assert(language@ =~= info@.subrange(start as int, end as int));
    }
    language
}

/// The header of a code block fenced with `info`.
pub fn code_header(info: &str) -> (header: String)
    ensures
        header@ == spec_code_header(info@),
{
    let language = code_language(info);
    if language.unicode_len() == 0 {
        string_of("╭─")
    } else {
        let mut header = string_of("╭─ ");
        header.append(language.as_str());
        header
    }
}

/// `s` without its trailing newlines.
pub open spec fn strip_newlines(s: Seq<char>) -> Seq<char>
    decreases s.len(),
{
    if s.len() > 0 && s.last() == '\n' { strip_newlines(s.drop_last()) } else { s }
}

/// `s` with each tab widened to four spaces.
pub open spec fn expand_tabs(s: Seq<char>) -> Seq<char>
    decreases s.len(),
{
    if s.len() == 0 {
        seq![]
    } else if s.last() == '\t' {
        expand_tabs(s.drop_last()) + "    "@
    } else {
        expand_tabs(s.drop_last()).push(s.last())
    }
}

/// The pieces of `s` between newlines (one more than it has newlines).
pub open spec fn newline_split(s: Seq<char>) -> Seq<Seq<char>>
    decreases s.len(),
{
    if s.len() == 0 {
        seq![seq![]]
    } else {
        let before = newline_split(s.drop_last());
        if s.last() == '\n' {
            before.push(seq![])
        } else {
            before.update(before.len() - 1, before.last().push(s.last()))
        }
    }
}

proof fn lemma_newline_split_nonempty(s: Seq<char>)
    ensures
        newline_split(s).len() >= 1,
    decreases s.len(),
{
    if s.len() > 0 {
        lemma_newline_split_nonempty(s.drop_last());
    }
}

/// The lines of a code block's source as its frame shows them: trailing
/// newlines dropped, tabs widened to four spaces, cut at each newline.
pub open spec fn spec_code_lines(source: Seq<char>) -> Seq<Seq<char>> {
    newline_split(expand_tabs(strip_newlines(source)))
}

proof fn lemma_newline_split_append_plain(e: Seq<char>, t: Seq<char>)
    requires
        forall|i: int| 0 <= i < t.len() ==> #[trigger] t[i] != '\n',
    ensures
        newline_split(e + t) == newline_split(e).update(
            newline_split(e).len() - 1,
            newline_split(e).last() + t,
        ),
    decreases t.len(),
{
    lemma_newline_split_nonempty(e);
    if t.len() == 0 {
        assert(e + t =~= e);
        assert(newline_split(e).last() + t =~= newline_split(e).last());
        assert(newline_split(e).update(newline_split(e).len() - 1, newline_split(e).last()) =~= newline_split(e));
    } else {
        let init = t.drop_last();
        lemma_newline_split_append_plain(e, init);
        assert((e + t).drop_last() =~= e + init);
        assert((e + t).last() == t.last());
        assert(t.last() == t[t.len() - 1]);
        let base = newline_split(e);
        assert(base.last() + t =~= (base.last() + init).push(t.last()));
    }
}

pub fn code_lines(source: &str) -> (lines: Vec<String>)
    ensures
        strings_view(lines@) == spec_code_lines(source@),
{
    let n = source.unicode_len();
    let mut end = n;
    assert(source@.take(n as int) =~= source@);
    while end > 0 && source.get_char(end - 1) == '\n'
        invariant
            n == source@.len(),
            end <= n,
            strip_newlines(source@.take(end as int)) == strip_newlines(source@),
        decreases end,
    {
        assert(source@.take(end as int).drop_last() =~= source@.take(end - 1));
        end -= 1;
    }
    let ghost kept = source@.take(end as int);
    assert(strip_newlines(kept) == kept);
    let mut lines: Vec<String> = Vec::new();
    let mut current = String::new();
    let mut i: usize = 0;
    proof {
        assert(kept.take(0) =~= Seq::<char>::empty());
    }
    while i < end
        invariant
            n == source@.len(),
            end <= n,
            i <= end,
            kept == source@.take(end as int),
            strings_view(lines@).push(current@) == newline_split(expand_tabs(kept.take(i as int))),
        decreases end - i,
    {
        let c = source.get_char(i);
        let ghost before = strings_view(lines@).push(current@);
        proof {
            assert(kept.take(i + 1).drop_last() =~= kept.take(i as int));
            assert(kept.take(i + 1).last() == c);
            lemma_newline_split_nonempty(expand_tabs(kept.take(i as int)));
        }
        let ghost e = expand_tabs(kept.take(i as int));
        if c == '\n' {
            assert(expand_tabs(kept.take(i + 1)) == e.push('\n'));
            assert(e.push('\n').drop_last() =~= e);
            let done = current;
            lines.push(done);
            current = String::new();
            assert(strings_view(lines@).push(current@) =~= before.push(seq![]));
        } else if c == '\t' {
            current.append("    ");
            proof {
                reveal_strlit("    ");
                lemma_newline_split_append_plain(e, "    "@);
                assert(expand_tabs(kept.take(i + 1)) == e + "    "@);
            }
            assert(strings_view(lines@).push(current@) =~= before.update(
                before.len() - 1,
                before.last() + "    "@,
            ));
        } else {
            push_char(&mut current, c);
            assert(expand_tabs(kept.take(i + 1)) == e.push(c));
            assert(e.push(c).drop_last() =~= e);
            assert(strings_view(lines@).push(current@) =~= before.update(
                before.len() - 1,
                before.last().push(c),
            ));
        }
        i += 1;
    }
    assert(kept.take(end as int) =~= kept);
    lines.push(current);
    lines
}


// ── Links ────────────────────────────────────────────────────────────────────

/// The trailer that follows a link's name: ` (target)` when targets are
/// shown and the name is not the target itself (as an autolink's is), both
/// taken without surrounding whitespace.
pub open spec fn spec_link_trailer(target: Seq<char>, text: Seq<char>, show_urls: bool) -> Option<Seq<char>> {
    if show_urls && trim_whitespace(text) != trim_whitespace(target) {
        Some(" ("@ + target + ")"@)
    } else {
        None
    }
}

pub fn link_trailer(target: &str, text: &str, show_urls: bool) -> (trailer: Option<String>)
    ensures
        match trailer {
            Some(t) => spec_link_trailer(target@, text@, show_urls) == Some(t@),
            None => spec_link_trailer(target@, text@, show_urls) is None,
        },
{
    if !show_urls {
        return None;
    }
    let name = string_of(trim(text));
    let goal = string_of(trim(target));
    if name == goal {
        None
    } else {
        let mut trailer = string_of(" (");
        trailer.append(target);
        trailer.append(")");
        Some(trailer)
    }
}


// ── What highlighting keeps ──────────────────────────────────────────────────

/// `s` with each `==` mark the renderer finds taken out.
pub open spec fn without_marks(s: Seq<char>) -> Seq<char>
    decreases s.len(),
{
    match first_pair(s, 0) {
        None => s,
        Some(i) => {
            proof {
                lemma_first_pair_bounds(s, 0);
            }
            s.take(i) + without_marks(s.skip(i + 2))
        },
    }
}

/// The pieces' text, joined.
pub open spec fn joined_text(pieces: Seq<(Seq<char>, bool)>) -> Seq<char>
    decreases pieces.len(),
{
    if pieces.len() == 0 { seq![] } else { pieces[0].0 + joined_text(pieces.skip(1)) }
}

proof fn lemma_joined_text_append(a: Seq<(Seq<char>, bool)>, b: Seq<(Seq<char>, bool)>)
    ensures
        joined_text(a + b) == joined_text(a) + joined_text(b),
    decreases a.len(),
{
    if a.len() == 0 {
        assert(a + b =~= b);
        assert(Seq::<char>::empty() + joined_text(b) =~= joined_text(b));
    } else {
        assert((a + b).skip(1) =~= a.skip(1) + b);
        lemma_joined_text_append(a.skip(1), b);
        assert(a[0].0 + (joined_text(a.skip(1)) + joined_text(b)) =~= (a[0].0 + joined_text(a.skip(1)))
            + joined_text(b));
    }
}

proof fn lemma_joined_segment(text: Seq<char>, highlighted: bool)
    ensures
        joined_text(segment(text, highlighted)) == text,
{
    assert(joined_text(Seq::<(Seq<char>, bool)>::empty()) == Seq::<char>::empty());
    if text.len() > 0 {
        assert(segment(text, highlighted).skip(1) =~= Seq::<(Seq<char>, bool)>::empty());
        assert(text + Seq::<char>::empty() =~= text);
    } else {
        assert(text =~= Seq::<char>::empty());
    }
}

/// Highlighting only takes the `==` marks out of a text: its pieces, joined,
/// are the text without its marks, whatever state the highlight starts in.
pub proof fn lemma_highlight_keeps_the_text(s: Seq<char>, open: bool)
    ensures
        joined_text(highlight_split(s, open).0) == without_marks(s),
    decreases s.len(),
{
    match first_pair(s, 0) {
        None => {
            lemma_joined_segment(s, open);
        },
        Some(i) => {
            lemma_first_pair_bounds(s, 0);
            lemma_highlight_keeps_the_text(s.skip(i + 2), !open);
            let rest = highlight_split(s.skip(i + 2), !open).0;
            lemma_joined_text_append(segment(s.take(i), open), rest);
            lemma_joined_segment(s.take(i), open);
        },
    }
}

} // verus!
