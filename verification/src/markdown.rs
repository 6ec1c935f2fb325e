//! Text helpers of the markdown reader: which link targets open, heading
//! anchors and their de-duplication, image labels, and the clean-up of
//! mermaid diagram sources.
use vstd::prelude::*;
use crate::text::{decimal, decimal_string, push_char, string_of};

verus! {

/// Unicode's `White_Space` property: tab through carriage return, space,
/// next line, no-break space, ogham space mark, the spaces U+2000 to U+200A,
/// the line and paragraph separators, narrow no-break space, medium
/// mathematical space and ideographic space.
pub open spec fn whitespace(c: char) -> bool {
    let u = c as u32;
    ||| 0x09 <= u <= 0x0d
    ||| u == 0x20 || u == 0x85 || u == 0xa0 || u == 0x1680
    ||| 0x2000 <= u <= 0x200a
    ||| u == 0x2028 || u == 0x2029 || u == 0x202f || u == 0x205f || u == 0x3000
}

/// Whether `char::is_alphanumeric` holds of `c` (Unicode `Alphabetic` or `Numeric`).
pub uninterp spec fn alphanumeric(c: char) -> bool;

/// The characters `char::to_lowercase` maps `c` to.
pub uninterp spec fn lowercase_of(c: char) -> Seq<char>;

/// Whether `c` is whitespace in Unicode's sense (`char::is_whitespace`):
/// one of the code points `whitespace` lists.
pub fn is_whitespace_char(c: char) -> (b: bool)
    ensures
        b == whitespace(c),
{
    let u = c as u32;
    (0x09 <= u && u <= 0x0d) || u == 0x20 || u == 0x85 || u == 0xa0 || u == 0x1680 || (0x2000 <= u && u <= 0x200a)
        || u == 0x2028 || u == 0x2029 || u == 0x202f || u == 0x205f || u == 0x3000
}

/// `char::is_alphanumeric` from std: trusted to return `alphanumeric(c)`;
/// among ASCII characters (as the documentation's `Alphabetic` and
/// `Numeric` properties give) exactly the letters and digits.
#[verifier::external_body]
fn is_alphanumeric_char(c: char) -> (b: bool)
    ensures
        b == alphanumeric(c),
        (c as u32) < 0x80 ==> (b <==> ('a' <= c <= 'z' || 'A' <= c <= 'Z' || '0' <= c <= '9')),
{
    c.is_alphanumeric()
}

/// `char::to_lowercase` from std, collected into a string: trusted to return
/// `lowercase_of(c)`; an ASCII character maps to itself, but for the
/// capitals, which map to their small letters (`to_ascii_lowercase`).
#[verifier::external_body]
fn lowercase_char(c: char) -> (lower: String)
    ensures
        lower@ == lowercase_of(c),
        (c as u32) < 0x80 ==> lower@ == seq![if 'A' <= c <= 'Z' { ((c as u32) + 32) as char } else { c }],
{
    c.to_lowercase().collect()
}

/// Whether `s` begins with `prefix`.
pub open spec fn has_prefix(s: Seq<char>, prefix: Seq<char>) -> bool {
    prefix.len() <= s.len() && s.take(prefix.len() as int) == prefix
}

fn starts_with(s: &str, prefix: &str) -> (b: bool)
    ensures
        b == has_prefix(s@, prefix@),
{
    let n = s.unicode_len();
    let m = prefix.unicode_len();
    if m > n {
        return false;
    }
    let mut i: usize = 0;
    while i < m
        invariant
            m <= n,
            n == s@.len(),
            m == prefix@.len(),
            i <= m,
            s@.take(i as int) == prefix@.take(i as int),
        decreases m - i,
    {
        if s.get_char(i) != prefix.get_char(i) {
            assert(s@.take(m as int)[i as int] != prefix@[i as int]);
            return false;
        }
        i += 1;
        assert(s@.take(i as int) =~= prefix@.take(i as int));
    }
    assert(prefix@.take(m as int) =~= prefix@);
    true
}

/// A link target worth making clickable: an in-page heading anchor or an
/// external `https`, `http` or `mailto` address.
pub open spec fn openable_link(text: Seq<char>) -> bool {
    has_prefix(text, "#"@) || has_prefix(text, "https://"@) || has_prefix(text, "http://"@)
        || has_prefix(text, "mailto:"@)
}

/// Whether a link target opens when clicked; relative asset paths stay styled
/// but inert.
pub fn is_openable_link(text: &str) -> (b: bool)
    ensures
        b == openable_link(text@),
{
    starts_with(text, "#") || starts_with(text, "https://") || starts_with(text, "http://")
        || starts_with(text, "mailto:")
}

/// `s` with every character lowercased (a character may become several).
pub open spec fn lowered(s: Seq<char>) -> Seq<char>
    decreases s.len(),
{
    if s.len() == 0 {
        seq![]
    } else {
        lowered(s.drop_last()) + lowercase_of(s.last())
    }
}

/// Whether a slug keeps `c`.
pub open spec fn slug_char(c: char) -> bool {
    alphanumeric(c) || c == '_' || c == '-'
}

/// The slug of `s` so far and whether whitespace is pending: kept characters
/// are appended; a whitespace run becomes one `-` before the next kept
/// character, unless the slug is empty or already ends with `-`; anything
/// else is dropped.
pub open spec fn slug_state(s: Seq<char>) -> (Seq<char>, bool)
    decreases s.len(),
{
    if s.len() == 0 {
        (seq![], false)
    } else {
        let (anchor, pending) = slug_state(s.drop_last());
        let c = s.last();
        if slug_char(c) {
            let dash = pending && anchor.len() > 0 && anchor.last() != '-';
            ((if dash { anchor.push('-') } else { anchor }).push(c), false)
        } else if whitespace(c) {
            (anchor, true)
        } else {
            (anchor, pending)
        }
    }
}

/// The number of leading characters of `s` equal to `c`.
pub open spec fn leading_run(s: Seq<char>, c: char, i: int) -> int
    decreases s.len() - i,
{
    if i < 0 || i >= s.len() || s[i] != c {
        0
    } else {
        1 + leading_run(s, c, i + 1)
    }
}

/// The number of trailing characters of `s` equal to `c`.
pub open spec fn trailing_run(s: Seq<char>, c: char, n: int) -> int
    decreases n,
{
    if n <= 0 || n > s.len() || s[n - 1] != c {
        0
    } else {
        1 + trailing_run(s, c, n - 1)
    }
}

/// `s` without its leading and trailing `c` characters.
pub open spec fn trim_char(s: Seq<char>, c: char) -> Seq<char> {
    let start = leading_run(s, c, 0);
    if start >= s.len() {
        seq![]
    } else {
        s.subrange(start, s.len() - trailing_run(s, c, s.len() as int))
    }
}

/// The GitHub-style anchor of a heading: lowercased, letters, digits, `_` and
/// `-` kept, whitespace runs collapsed to single dashes, dashes trimmed off
/// both ends.
pub open spec fn spec_heading_anchor(text: Seq<char>) -> Seq<char> {
    trim_char(slug_state(lowered(text)).0, '-')
}

proof fn lemma_leading_run_bounds(s: Seq<char>, c: char, i: int)
    requires
        0 <= i <= s.len(),
    ensures
        0 <= leading_run(s, c, i) <= s.len() - i,
        forall|k: int| i <= k < i + leading_run(s, c, i) ==> s[k] == c,
        i + leading_run(s, c, i) < s.len() ==> s[i + leading_run(s, c, i)] != c,
    decreases s.len() - i,
{
    if i < s.len() && s[i] == c {
        lemma_leading_run_bounds(s, c, i + 1);
    }
}

proof fn lemma_trailing_run_bounds(s: Seq<char>, c: char, n: int)
    requires
        0 <= n <= s.len(),
    ensures
        0 <= trailing_run(s, c, n) <= n,
        forall|k: int| n - trailing_run(s, c, n) <= k < n ==> s[k] == c,
        n - trailing_run(s, c, n) > 0 ==> s[n - trailing_run(s, c, n) - 1] != c,
    decreases n,
{
    if n > 0 && s[n - 1] == c {
        lemma_trailing_run_bounds(s, c, n - 1);
    }
}

/// `s` without its leading and trailing `c` characters.
fn trim_char_exec(s: &str, c: char) -> (t: &str)
    ensures
        t@ == trim_char(s@, c),
{
    let n = s.unicode_len();
    let mut start: usize = 0;
    proof {
        lemma_leading_run_bounds(s@, c, 0);
    }
    while start < n && s.get_char(start) == c
        invariant
            n == s@.len(),
            start <= n,
            leading_run(s@, c, 0) == start + leading_run(s@, c, start as int),
        decreases n - start,
    {
        start += 1;
    }
    if start >= n {
        return s.substring_char(0, 0);
    }
    let mut end: usize = n;
    proof {
        lemma_trailing_run_bounds(s@, c, n as int);
        lemma_leading_run_bounds(s@, c, 0);
        assert(s@[start as int] != c);
    }
    while end > start && s.get_char(end - 1) == c
        invariant
            n == s@.len(),
            start < n,
            start == leading_run(s@, c, 0),
            s@[start as int] != c,
            start < end <= n,
            trailing_run(s@, c, n as int) == (n - end) + trailing_run(s@, c, end as int),
        decreases end,
    {
        end -= 1;
    }
    s.substring_char(start, end)
}

/// The GitHub-style anchor a heading links as (`My Heading` → `my-heading`).
pub fn heading_anchor(text: &str) -> (anchor: String)
    ensures
        anchor@ == spec_heading_anchor(text@),
{
    let n = text.unicode_len();
    let mut anchor = String::new();
    let mut pending = false;
    let mut i: usize = 0;
    let ghost mut done: Seq<char> = seq![];
    while i < n
        invariant
            n == text@.len(),
            i <= n,
            done == lowered(text@.take(i as int)),
            (anchor@, pending) == slug_state(done),
        decreases n - i,
    {
        let c = text.get_char(i);
        let lower = lowercase_char(c);
        let m = lower.unicode_len();
        let mut j: usize = 0;
        let ghost base = done;
        while j < m
            invariant
                m == lower@.len(),
                lower@ == lowercase_of(c),
                j <= m,
                done == base + lower@.take(j as int),
                (anchor@, pending) == slug_state(done),
            decreases m - j,
        {
            let ch = lower.as_str().get_char(j);
            let ghost prev = done;
            proof {
                done = done.push(ch);
                assert(done.drop_last() =~= prev);
                assert(done =~= base + lower@.take(j + 1));
            }
            if is_alphanumeric_char(ch) || ch == '_' || ch == '-' {
                let ends_dash = anchor.unicode_len() > 0 && anchor.as_str().get_char(
                    anchor.unicode_len() - 1,
                ) == '-';
                if pending && anchor.unicode_len() > 0 && !ends_dash {
                    push_char(&mut anchor, '-');
                }
                pending = false;
                push_char(&mut anchor, ch);
            } else if is_whitespace_char(ch) {
                pending = true;
            }
            j += 1;
        }
        proof {
            assert(lower@.take(m as int) =~= lower@);
            assert(text@.take(i + 1).drop_last() =~= text@.take(i as int));
            assert(text@.take(i + 1).last() == c);
        }
        i += 1;
    }
    assert(text@.take(n as int) =~= text@);
    string_of(trim_char_exec(anchor.as_str(), '-'))
}

/// The digit key that opens image `index` (0-based): images one to nine take
/// their number, the tenth takes `0`, later images have none.
pub open spec fn spec_image_key(index: int) -> Option<char> {
    if 0 <= index < 9 {
        Some(crate::text::digit_char((index + 1) as nat))
    } else if index == 9 {
        Some('0')
    } else {
        None
    }
}

fn image_key(index: usize) -> (key: Option<char>)
    ensures
        key == spec_image_key(index as int),
{
    if index < 9 {
        let text = decimal_string((index + 1) as u64);
        proof {
            assert(decimal((index + 1) as nat) =~= seq![crate::text::digit_char((index + 1) as nat)]);
        }
        Some(text.as_str().get_char(0))
    } else if index == 9 {
        Some('0')
    } else {
        None
    }
}

/// `s` without leading and trailing whitespace.
pub open spec fn trim_whitespace(s: Seq<char>) -> Seq<char> {
    let start = first_non_white(s, 0);
    let end = last_non_white_end(s, s.len() as int);
    if start >= end {
        seq![]
    } else {
        s.subrange(start, end)
    }
}

/// The index of the first non-whitespace character from `i` on (`s.len()`
/// when there is none).
pub open spec fn first_non_white(s: Seq<char>, i: int) -> int
    decreases s.len() - i,
{
    if i < 0 || i >= s.len() {
        s.len() as int
    } else if !whitespace(s[i]) {
        i
    } else {
        first_non_white(s, i + 1)
    }
}

/// One past the last non-whitespace character before `n` (`0` when none).
pub open spec fn last_non_white_end(s: Seq<char>, n: int) -> int
    decreases n,
{
    if n <= 0 || n > s.len() {
        0
    } else if !whitespace(s[n - 1]) {
        n
    } else {
        last_non_white_end(s, n - 1)
    }
}

proof fn lemma_first_non_white(s: Seq<char>, i: int)
    requires
        0 <= i <= s.len(),
    ensures
        i <= first_non_white(s, i) <= s.len(),
    decreases s.len() - i,
{
    if i < s.len() && whitespace(s[i]) {
        lemma_first_non_white(s, i + 1);
    }
}

proof fn lemma_last_non_white_end(s: Seq<char>, n: int)
    requires
        0 <= n <= s.len(),
    ensures
        0 <= last_non_white_end(s, n) <= n,
    decreases n,
{
    if n > 0 && whitespace(s[n - 1]) {
        lemma_last_non_white_end(s, n - 1);
    }
}

/// `s` without leading and trailing whitespace, as `str::trim` gives it.
pub fn trim(s: &str) -> (t: &str)
    ensures
        t@ == trim_whitespace(s@),
{
    let n = s.unicode_len();
    let mut start: usize = 0;
    proof {
        lemma_first_non_white(s@, 0);
    }
    while start < n && is_whitespace_char(s.get_char(start))
        invariant
            n == s@.len(),
            start <= n,
            first_non_white(s@, 0) == first_non_white(s@, start as int),
        decreases n - start,
    {
        start += 1;
    }
    let mut end: usize = n;
    while end > 0 && is_whitespace_char(s.get_char(end - 1))
        invariant
            n == s@.len(),
            end <= n,
            last_non_white_end(s@, n as int) == last_non_white_end(s@, end as int),
        decreases end,
    {
        end -= 1;
    }
    proof {
        lemma_first_non_white(s@, start as int);
        lemma_last_non_white_end(s@, end as int);
    }
    if start >= end {
        s.substring_char(0, 0)
    } else {
        s.substring_char(start, end)
    }
}

/// The clickable label standing in for image `index` (0-based) with alt text
/// `alt`: `[Image N: alt - click here or press K]`, without `: alt` when the
/// trimmed alt text is empty and without the key past the tenth image.
pub open spec fn spec_image_label(index: int, alt: Seq<char>) -> Seq<char> {
    let alt = trim_whitespace(alt);
    let head = "Image "@ + decimal((index + 1) as nat) + if alt.len() == 0 {
        seq![]
    } else {
        ": "@ + alt
    };
    match spec_image_key(index) {
        Some(k) => "["@ + head + " - click here or press "@ + seq![k] + "]"@,
        None => "["@ + head + " - click here]"@,
    }
}

/// The label of an image replaced in the reader.
pub fn image_label(index: usize, alt: &str) -> (label: String)
    requires
        index < usize::MAX,
    ensures
        label@ == spec_image_label(index as int, alt@),
{
    let trimmed = trim(alt);
    let mut label = string_of("[Image ");
    let number = decimal_string((index + 1) as u64);
    label.append(number.as_str());
    if trimmed.unicode_len() > 0 {
        label.append(": ");
        label.append(trimmed);
    }
    match image_key(index) {
        Some(k) => {
            label.append(" - click here or press ");
            push_char(&mut label, k);
            label.append("]");
        },
        None => {
            label.append(" - click here]");
        },
    }
    proof {
        reveal_strlit("[Image ");
        reveal_strlit("[");
        reveal_strlit("Image ");
    }
    assert(label@ =~= spec_image_label(index as int, alt@));
    label
}

/// The number of leading spaces and tabs of `s` from `i` on.
pub open spec fn indent_from(s: Seq<char>, i: int) -> int
    decreases s.len() - i,
{
    if i < 0 || i >= s.len() || (s[i] != ' ' && s[i] != '\t') {
        0
    } else {
        1 + indent_from(s, i + 1)
    }
}

proof fn lemma_indent_from_bounds(s: Seq<char>, i: int)
    requires
        0 <= i <= s.len(),
    ensures
        0 <= indent_from(s, i) <= s.len() - i,
    decreases s.len() - i,
{
    if i < s.len() && (s[i] == ' ' || s[i] == '\t') {
        lemma_indent_from_bounds(s, i + 1);
    }
}

/// `line` without up to `count` of its leading spaces and tabs.
pub open spec fn spec_strip_leading_whitespace(line: Seq<char>, count: int) -> Seq<char> {
    let indent = indent_from(line, 0);
    let k = if count < indent { count } else { indent };
    line.subrange(k, line.len() as int)
}

/// `line` without up to `count` of its leading spaces and tabs.
pub fn strip_leading_whitespace(line: &str, count: usize) -> (rest: &str)
    ensures
        rest@ == spec_strip_leading_whitespace(line@, count as int),
{
    let n = line.unicode_len();
    let mut k: usize = 0;
    proof {
        lemma_indent_from_bounds(line@, 0);
    }
    while k < count && k < n && (line.get_char(k) == ' ' || line.get_char(k) == '\t')
        invariant
            n == line@.len(),
            k <= n,
            k <= count,
            indent_from(line@, 0) == k + indent_from(line@, k as int),
        decreases n - k,
    {
        k += 1;
    }
    proof {
        lemma_indent_from_bounds(line@, k as int);
    }
    line.substring_char(k, n)
}

/// The pieces of `s` between its line feeds (one more than it has).
pub open spec fn pieces(s: Seq<char>) -> Seq<Seq<char>>
    decreases s.len(),
{
    if s.len() == 0 {
        seq![seq![]]
    } else {
        let p = pieces(s.drop_last());
        if s.last() == '\n' {
            p.push(seq![])
        } else {
            p.update(p.len() - 1, p.last().push(s.last()))
        }
    }
}

proof fn lemma_pieces_nonempty(s: Seq<char>)
    ensures
        pieces(s).len() >= 1,
    decreases s.len(),
{
    if s.len() > 0 {
        lemma_pieces_nonempty(s.drop_last());
    }
}

/// A line without the carriage return of a `\r\n` ending.
pub open spec fn drop_cr(line: Seq<char>) -> Seq<char> {
    if line.len() > 0 && line.last() == '\r' {
        line.drop_last()
    } else {
        line
    }
}

/// The lines of `s` as `str::lines` yields them: split at `\n` or `\r\n`,
/// endings dropped, the final ending optional (a lone `\r` at the very end
/// stays in the last line).
pub open spec fn text_lines(s: Seq<char>) -> Seq<Seq<char>> {
    let p = pieces(s);
    if s.len() == 0 {
        seq![]
    } else if s.last() == '\n' {
        p.drop_last().map_values(|l: Seq<char>| drop_cr(l))
    } else {
        p.drop_last().map_values(|l: Seq<char>| drop_cr(l)).push(p.last())
    }
}

/// Whether `line` holds only whitespace.
pub open spec fn blank(line: Seq<char>) -> bool {
    forall|i: int| 0 <= i < line.len() ==> whitespace(#[trigger] line[i])
}

/// The first non-blank line at or after `i`, if any.
pub open spec fn first_non_blank(lines: Seq<Seq<char>>, i: int) -> Option<int>
    decreases lines.len() - i,
{
    if i < 0 || i >= lines.len() {
        None
    } else if !blank(lines[i]) {
        Some(i)
    } else {
        first_non_blank(lines, i + 1)
    }
}

/// The last non-blank line before `n`, if any.
pub open spec fn last_non_blank(lines: Seq<Seq<char>>, n: int) -> Option<int>
    decreases n,
{
    if n <= 0 || n > lines.len() {
        None
    } else if !blank(lines[n - 1]) {
        Some(n - 1)
    } else {
        last_non_blank(lines, n - 1)
    }
}

/// The smallest indent among the non-blank lines of `lines` (`none` when
/// there are none).
pub open spec fn min_indent(lines: Seq<Seq<char>>, none: int) -> int
    decreases lines.len(),
{
    if lines.len() == 0 {
        none
    } else {
        let rest = min_indent(lines.drop_last(), none);
        let last = lines.last();
        if blank(last) {
            rest
        } else {
            let here = indent_from(last, 0);
            if rest == none || here < rest { here } else { rest }
        }
    }
}

/// Lines joined by line feeds.
pub open spec fn join_lines(lines: Seq<Seq<char>>) -> Seq<char>
    decreases lines.len(),
{
    if lines.len() == 0 {
        seq![]
    } else if lines.len() == 1 {
        lines[0]
    } else {
        join_lines(lines.drop_last()) + seq!['\n'] + lines.last()
    }
}

/// A mermaid source tidied for rendering: the blank lines around it dropped
/// and the common indentation of its non-blank lines removed.
pub open spec fn spec_normalize_mermaid(code: Seq<char>) -> Seq<char> {
    let lines = text_lines(code);
    match first_non_blank(lines, 0) {
        None => seq![],
        Some(start) => {
            let end = match last_non_blank(lines, lines.len() as int) {
                Some(last) => last + 1,
                None => start,
            };
            let body = lines.subrange(start, end);
            let indent = min_indent(body, -1);
            let shown = if indent < 0 { 0 } else { indent };
            join_lines(body.map_values(|l: Seq<char>| spec_strip_leading_whitespace(l, shown)))
        },
    }
}

/// The lines of `text`, as `str::lines` yields them.
pub fn text_lines_of(text: &str) -> (lines: Vec<String>)
    ensures
        crate::wrap::strings_view(lines@) == text_lines(text@),
{
    let n = text.unicode_len();
    let mut lines: Vec<String> = Vec::new();
    let mut cur = String::new();
    let mut i: usize = 0;
    assert(text@.take(0) =~= Seq::<char>::empty());
    assert(crate::wrap::strings_view(lines@) =~= Seq::<Seq<char>>::empty());
    assert(pieces(Seq::<char>::empty()).drop_last().map_values(|l: Seq<char>| drop_cr(l))
        =~= Seq::<Seq<char>>::empty());
    while i < n
        invariant
            n == text@.len(),
            i <= n,
            pieces(text@.take(i as int)).len() >= 1,
            crate::wrap::strings_view(lines@) == pieces(text@.take(i as int)).drop_last().map_values(
                |l: Seq<char>| drop_cr(l),
            ),
            cur@ == pieces(text@.take(i as int)).last(),
        decreases n - i,
    {
        let c = text.get_char(i);
        let ghost before = text@.take(i as int);
        let ghost after = text@.take(i + 1);
        assert(after.drop_last() =~= before);
        assert(after.last() == c);
        let ghost p = pieces(before);
        if c == '\n' {
            let m = cur.unicode_len();
            let piece = if m > 0 && cur.as_str().get_char(m - 1) == '\r' {
                string_of(cur.as_str().substring_char(0, m - 1))
            } else {
                cur
            };
            assert(piece@ == drop_cr(p.last())) by {
                if m > 0 && p.last().last() == '\r' {
                    assert(p.last().drop_last() =~= p.last().subrange(0, m - 1));
                }
            }
            let ghost old_lines = crate::wrap::strings_view(lines@);
            lines.push(piece);
            assert(crate::wrap::strings_view(lines@) =~= old_lines.push(piece@));
            assert(pieces(after).drop_last() =~= p);
            assert(p =~= p.drop_last().push(p.last()));
            assert(p.map_values(|l: Seq<char>| drop_cr(l)) =~= p.drop_last().map_values(
                |l: Seq<char>| drop_cr(l),
            ).push(drop_cr(p.last())));
            cur = String::new();
            assert(cur@ =~= pieces(after).last());
        } else {
            push_char(&mut cur, c);
            assert(pieces(after).drop_last() =~= p.drop_last());
        }
        i += 1;
    }
    assert(text@.take(n as int) =~= text@);
    if cur.unicode_len() > 0 {
        let ghost old_lines = crate::wrap::strings_view(lines@);
        let ghost last = cur@;
        lines.push(cur);
        assert(crate::wrap::strings_view(lines@) =~= old_lines.push(last));
        proof {
            if n > 0 && text@.last() == '\n' {
                let q = pieces(text@.drop_last());
                lemma_pieces_nonempty(text@.drop_last());
                assert(pieces(text@).last() =~= Seq::<char>::empty());
            }
        }
    } else {
        proof {
            if n > 0 && text@.last() != '\n' {
                let q = pieces(text@.drop_last());
                lemma_pieces_nonempty(text@.drop_last());
                assert(pieces(text@).last().len() > 0);
            }
        }
    }
    lines
}

/// Whether `line` holds only whitespace.
fn is_blank(line: &str) -> (b: bool)
    ensures
        b == blank(line@),
{
    let n = line.unicode_len();
    let mut i: usize = 0;
    while i < n
        invariant
            n == line@.len(),
            i <= n,
            forall|k: int| 0 <= k < i ==> whitespace(#[trigger] line@[k]),
        decreases n - i,
    {
        if !is_whitespace_char(line.get_char(i)) {
            return false;
        }
        i += 1;
    }
    true
}

/// A mermaid diagram's source tidied for rendering: leading and trailing
/// blank lines dropped and the indentation common to its non-blank lines
/// removed, lines joined by line feeds; empty when every line is blank.
pub fn normalize_mermaid_code(code: &str) -> (normalized: String)
    ensures
        normalized@ == spec_normalize_mermaid(code@),
{
    let lines = text_lines_of(code);
    let ghost ls = crate::wrap::strings_view(lines@);
    let n = lines.len();
    let mut start: usize = 0;
    while start < n && is_blank(lines[start].as_str())
        invariant
            ls == crate::wrap::strings_view(lines@),
            n == ls.len(),
            start <= n,
            first_non_blank(ls, 0) == first_non_blank(ls, start as int),
        decreases n - start,
    {
        assert(ls[start as int] == lines@[start as int]@);
        start += 1;
    }
    if start >= n {
        return String::new();
    }
    assert(ls[start as int] == lines@[start as int]@);
    assert(first_non_blank(ls, 0) == Some(start as int));
    let mut end: usize = n;
    while end > start && is_blank(lines[end - 1].as_str())
        invariant
            ls == crate::wrap::strings_view(lines@),
            n == ls.len(),
            start < end <= n,
            !blank(ls[start as int]),
            last_non_blank(ls, n as int) == last_non_blank(ls, end as int),
        decreases end,
    {
        assert(ls[end - 1] == lines@[end - 1]@);
        end -= 1;
    }
    assert(ls[end - 1] == lines@[end - 1]@);
    assert(last_non_blank(ls, n as int) == Some(end - 1));
    let ghost body = ls.subrange(start as int, end as int);
    let mut indent: usize = 0;
    let mut seen = false;
    let mut i: usize = start;
    assert(body.take(0) =~= Seq::<Seq<char>>::empty());
    while i < end
        invariant
            ls == crate::wrap::strings_view(lines@),
            n == ls.len(),
            start <= i <= end <= n,
            body == ls.subrange(start as int, end as int),
            !seen ==> indent == 0,
            min_indent(body.take(i - start), -1) == if seen { indent as int } else { -1 },
        decreases end - i,
    {
        let line = lines[i].as_str();
        assert(line@ == body[i - start]);
        assert(body.take(i - start + 1).drop_last() =~= body.take(i - start));
        assert(body.take(i - start + 1).last() == body[i - start]);
        if !is_blank(line) {
            let here = indent_of(line);
            if !seen || here < indent {
                indent = here;
            }
            seen = true;
        }
        i += 1;
    }
    assert(body.take(end - start) =~= body);
    let mut out = String::new();
    let mut k: usize = start;
    let ghost shown: int = if seen { indent as int } else { 0 };
    let ghost stripped = body.map_values(|l: Seq<char>| spec_strip_leading_whitespace(l, shown));
    assert(stripped.take(0) =~= Seq::<Seq<char>>::empty());
    while k < end
        invariant
            ls == crate::wrap::strings_view(lines@),
            n == ls.len(),
            start <= k <= end <= n,
            body == ls.subrange(start as int, end as int),
            shown == indent as int,
            stripped == body.map_values(|l: Seq<char>| spec_strip_leading_whitespace(l, shown)),
            out@ == join_lines(stripped.take(k - start)),
        decreases end - k,
    {
        let piece = strip_leading_whitespace(lines[k].as_str(), indent);
        assert(lines@[k as int]@ == body[k - start]);
        assert(piece@ == stripped[k - start]);
        let ghost prev = stripped.take(k - start);
        let ghost next = stripped.take(k - start + 1);
        assert(next.drop_last() =~= prev);
        if k > start {
            push_char(&mut out, '\n');
        } else {
            assert(prev =~= Seq::<Seq<char>>::empty());
        }
        out.append(piece);
        assert(out@ =~= join_lines(next));
        k += 1;
    }
    assert(stripped.take(end - start) =~= stripped);
    out
}

/// The number of leading spaces and tabs of `line`.
fn indent_of(line: &str) -> (indent: usize)
    ensures
        indent == indent_from(line@, 0),
{
    let n = line.unicode_len();
    let mut k: usize = 0;
    proof {
        lemma_indent_from_bounds(line@, 0);
    }
    while k < n && (line.get_char(k) == ' ' || line.get_char(k) == '\t')
        invariant
            n == line@.len(),
            k <= n,
            indent_from(line@, 0) == k + indent_from(line@, k as int),
        decreases n - k,
    {
        k += 1;
    }
    k
}

/// A heading of the reader: its anchor and the body line it starts on.
pub struct ReaderHeading {
    pub anchor: String,
    pub line: usize,
}

/// How many of the first `j` anchors equal anchor `i`.
pub open spec fn prior_count(anchors: Seq<Seq<char>>, i: int, j: int) -> nat
    decreases j,
{
    if j <= 0 {
        0
    } else {
        prior_count(anchors, i, j - 1) + if anchors[j - 1] == anchors[i] { 1nat } else { 0nat }
    }
}

/// Anchor `i` made unique: the `n`th repeat of an anchor (counting from one)
/// gets `-n` appended, matching in-page links to repeated headings.
pub open spec fn deduped_anchor(anchors: Seq<Seq<char>>, i: int) -> Seq<char> {
    let count = prior_count(anchors, i, i);
    if count > 0 {
        anchors[i] + seq!['-'] + decimal(count)
    } else {
        anchors[i]
    }
}

pub open spec fn heading_anchors(headings: Seq<ReaderHeading>) -> Seq<Seq<char>> {
    headings.map_values(|h: ReaderHeading| h.anchor@)
}

/// Disambiguate repeated heading anchors across a document: the second
/// `intro` becomes `intro-1`, the third `intro-2`; lines stay as they are.
pub fn dedupe_heading_anchors(headings: &mut Vec<ReaderHeading>)
    ensures
        final(headings)@.len() == old(headings)@.len(),
        forall|i: int|
            0 <= i < old(headings)@.len() ==> (#[trigger] final(headings)@[i]).anchor@ == deduped_anchor(
                heading_anchors(old(headings)@),
                i,
            ) && final(headings)@[i].line == old(headings)@[i].line,
{
    let ghost originals = heading_anchors(headings@);
    let n = headings.len();
    let mut result: Vec<ReaderHeading> = Vec::new();
    let mut i: usize = 0;
    while i < n
        invariant
            n == headings@.len(),
            originals == heading_anchors(headings@),
            i <= n,
            result@.len() == i,
            forall|k: int|
                0 <= k < i ==> (#[trigger] result@[k]).anchor@ == deduped_anchor(originals, k)
                    && result@[k].line == headings@[k].line,
        decreases n - i,
    {
        let mut count: usize = 0;
        let mut j: usize = 0;
        while j < i
            invariant
                n == headings@.len(),
                originals == heading_anchors(headings@),
                i < n,
                j <= i,
                count == prior_count(originals, i as int, j as int),
                count <= j,
            decreases i - j,
        {
            assert(originals[j as int] == headings@[j as int].anchor@);
            assert(originals[i as int] == headings@[i as int].anchor@);
            if headings[j].anchor == headings[i].anchor {
                count += 1;
            }
            j += 1;
        }
        let mut anchor = headings[i].anchor.clone();
        assert(anchor@ == originals[i as int]);
        if count > 0 {
            push_char(&mut anchor, '-');
            let digits = decimal_string(count as u64);
            anchor.append(digits.as_str());
        }
        let ghost before = result@;
        result.push(ReaderHeading { anchor, line: headings[i].line });
        assert forall|k: int| 0 <= k < i + 1 implies (#[trigger] result@[k]).anchor@ == deduped_anchor(
            originals,
            k,
        ) && result@[k].line == headings@[k].line by {
            if k < i {
                assert(result@[k] == before[k]);
            }
        }
        i += 1;
    }
    *headings = result;
}

} // verus!
