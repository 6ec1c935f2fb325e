//! Word wrapping: text split into words and filled greedily into lines of a
//! given display width, the first line optionally narrower than the rest.
use vstd::prelude::*;
use crate::text::{display_width, push_char, str_width};

verus! {

/// Whether `c` separates words when text is wrapped.
pub open spec fn is_word_break(c: char) -> bool {
    c == ' ' || c == '\t' || c == '\n' || c == '\r'
}

/// The words of `s`: its maximal runs of non-separator characters, in order.
pub open spec fn words(s: Seq<char>) -> Seq<Seq<char>>
    decreases s.len(),
{
    if s.len() == 0 {
        seq![]
    } else {
        let prev = words(s.drop_last());
        let c = s.last();
        if is_word_break(c) {
            prev
        } else if s.len() >= 2 && !is_word_break(s[s.len() - 2]) {
            prev.update(prev.len() - 1, prev.last().push(c))
        } else {
            prev.push(seq![c])
        }
    }
}

/// A text that ends inside a word has at least one word.
proof fn lemma_words_nonempty(s: Seq<char>)
    requires
        s.len() > 0,
        !is_word_break(s.last()),
    ensures
        words(s).len() > 0,
    decreases s.len(),
{
    if s.len() >= 2 && !is_word_break(s[s.len() - 2]) {
        let p = s.drop_last();
        assert(p.last() == s[s.len() - 2]);
        lemma_words_nonempty(p);
    }
}

/// The greedy fill of `ws[i..]` onto the lines `done` with `line` under
/// construction: a word joins the current line (after one space) while the
/// joined line's display width stays within the line's limit — `first_width`
/// for the first line, `width` after — and otherwise starts the next line.
/// A word wider than the limit still gets a line of its own.
pub open spec fn fill_lines(
    ws: Seq<Seq<char>>,
    first_width: int,
    width: int,
    i: int,
    line: Seq<char>,
    done: Seq<Seq<char>>,
) -> Seq<Seq<char>>
    decreases ws.len() - i,
{
    if i < 0 || i >= ws.len() {
        if line.len() == 0 {
            done
        } else {
            done.push(line)
        }
    } else {
        let limit = if done.len() == 0 { first_width } else { width };
        let word = ws[i];
        if line.len() == 0 {
            fill_lines(ws, first_width, width, i + 1, word, done)
        } else if display_width(line + seq![' '] + word) <= limit {
            fill_lines(ws, first_width, width, i + 1, line + seq![' '] + word, done)
        } else {
            fill_lines(ws, first_width, width, i + 1, word, done.push(line))
        }
    }
}

/// Every line `text` wraps to: its words filled greedily, the first line
/// within `first_width` columns and the others within `width`.
pub open spec fn wrapped_lines(text: Seq<char>, first_width: int, width: int) -> Seq<Seq<char>> {
    fill_lines(words(text), first_width, width, 0, seq![], seq![])
}

/// A text has no more words than characters.
pub proof fn lemma_words_len(s: Seq<char>)
    ensures
        words(s).len() <= s.len(),
    decreases s.len(),
{
    if s.len() > 0 {
        lemma_words_len(s.drop_last());
        if s.len() >= 2 && !is_word_break(s[s.len() - 2]) {
            assert(s.drop_last().last() == s[s.len() - 2]);
            lemma_words_nonempty(s.drop_last());
        }
    }
}

/// Filling adds at most one line per remaining word (plus the line under
/// construction).
pub proof fn lemma_fill_lines_len(
    ws: Seq<Seq<char>>,
    first_width: int,
    width: int,
    i: int,
    line: Seq<char>,
    done: Seq<Seq<char>>,
)
    requires
        0 <= i <= ws.len(),
    ensures
        fill_lines(ws, first_width, width, i, line, done).len() <= done.len() + (ws.len() - i) + (
        if line.len() == 0 { 0int } else { 1int }),
    decreases ws.len() - i,
{
    if i < ws.len() {
        let limit = if done.len() == 0 { first_width } else { width };
        let word = ws[i];
        if line.len() == 0 {
            lemma_fill_lines_len(ws, first_width, width, i + 1, word, done);
        } else if display_width(line + seq![' '] + word) <= limit {
            lemma_fill_lines_len(ws, first_width, width, i + 1, line + seq![' '] + word, done);
        } else {
            lemma_fill_lines_len(ws, first_width, width, i + 1, word, done.push(line));
        }
    }
}

/// A text wraps to at most as many lines as it has characters.
pub proof fn lemma_wrapped_lines_len(text: Seq<char>, first_width: int, width: int)
    ensures
        wrapped_lines(text, first_width, width).len() <= text.len(),
{
    lemma_words_len(text);
    lemma_fill_lines_len(words(text), first_width, width, 0, seq![], seq![]);
}

/// Texts joined by single spaces.
pub open spec fn join_spaced(parts: Seq<Seq<char>>) -> Seq<char>
    decreases parts.len(),
{
    if parts.len() == 0 {
        seq![]
    } else if parts.len() == 1 {
        parts[0]
    } else {
        join_spaced(parts.drop_last()) + seq![' '] + parts.last()
    }
}

/// Every word is non-empty and holds no separator.
pub proof fn lemma_words_are_clean(s: Seq<char>)
    ensures
        forall|k: int| 0 <= k < words(s).len() ==> (#[trigger] words(s)[k]).len() > 0,
        forall|k: int, m: int|
            0 <= k < words(s).len() && 0 <= m < words(s)[k].len() ==> !is_word_break(
                #[trigger] words(s)[k][m],
            ),
    decreases s.len(),
{
    if s.len() > 0 {
        let p = s.drop_last();
        lemma_words_are_clean(p);
        if s.len() >= 2 && !is_word_break(s[s.len() - 2]) && !is_word_break(s.last()) {
            assert(p.last() == s[s.len() - 2]);
            lemma_words_nonempty(p);
            let prev = words(p);
            let w = words(s);
            assert forall|k: int, m: int|
                0 <= k < w.len() && 0 <= m < w[k].len() implies !is_word_break(#[trigger] w[k][m]) by {
                if k == prev.len() - 1 && m == prev.last().len() {
                    assert(w[k][m] == s.last());
                } else if k == prev.len() - 1 {
                    assert(w[k][m] == prev[k][m]);
                }
            }
        }
    }
}

/// The invariant of a fill: the finished lines and the line under
/// construction, joined by spaces, are the first `i` words joined by spaces;
/// and every line holding a space fits its limit.
pub open spec fn fill_ok(
    ws: Seq<Seq<char>>,
    first_width: int,
    width: int,
    i: int,
    line: Seq<char>,
    done: Seq<Seq<char>>,
) -> bool {
    &&& 0 <= i <= ws.len()
    &&& (line.len() == 0 ==> i == 0 && done.len() == 0)
    &&& (if line.len() == 0 { join_spaced(done) } else { join_spaced(done.push(line)) })
        == join_spaced(ws.take(i))
    &&& forall|n: int| 0 <= n < done.len() && (#[trigger] done[n]).contains(' ') ==> display_width(done[n])
        <= if n == 0 { first_width } else { width }
    &&& line.contains(' ') ==> display_width(line) <= if done.len() == 0 { first_width } else { width }
}

proof fn lemma_fill_keeps_words(
    ws: Seq<Seq<char>>,
    first_width: int,
    width: int,
    i: int,
    line: Seq<char>,
    done: Seq<Seq<char>>,
)
    requires
        fill_ok(ws, first_width, width, i, line, done),
        forall|k: int| 0 <= k < ws.len() ==> (#[trigger] ws[k]).len() > 0,
        forall|k: int| 0 <= k < ws.len() ==> !(#[trigger] ws[k]).contains(' '),
    ensures
        join_spaced(fill_lines(ws, first_width, width, i, line, done)) == join_spaced(ws),
        forall|n: int|
            0 <= n < fill_lines(ws, first_width, width, i, line, done).len() && (
            #[trigger] fill_lines(ws, first_width, width, i, line, done)[n]).contains(' ')
                ==> display_width(fill_lines(ws, first_width, width, i, line, done)[n]) <= if n
                == 0 {
                first_width
            } else {
                width
            },
    decreases ws.len() - i,
{
    if i >= ws.len() {
        assert(ws.take(i) =~= ws);
        let result = fill_lines(ws, first_width, width, i, line, done);
        if line.len() != 0 {
            assert forall|n: int| 0 <= n < result.len() && (#[trigger] result[n]).contains(' ')
                implies display_width(result[n]) <= if n == 0 { first_width } else { width } by {
                if n < done.len() {
                    assert(result[n] == done[n]);
                }
            }
        }
    } else {
        let limit = if done.len() == 0 { first_width } else { width };
        let word = ws[i];
        assert(ws.take(i + 1) =~= ws.take(i).push(word));
        assert(ws.take(i + 1).drop_last() =~= ws.take(i));
        if line.len() == 0 {
            assert(ws.take(0) =~= Seq::<Seq<char>>::empty());
            assert(done.push(word) =~= seq![word]);
            assert(ws.take(1) =~= seq![word]);
            lemma_fill_keeps_words(ws, first_width, width, i + 1, word, done);
        } else if display_width(line + seq![' '] + word) <= limit {
            let joined = line + seq![' '] + word;
            if done.len() > 0 {
                assert(done.push(joined).drop_last() =~= done);
                assert(done.push(line).drop_last() =~= done);
                assert(join_spaced(done.push(joined)) =~= join_spaced(done.push(line)) + seq![' '] + word);
            } else {
                assert(done.push(joined) =~= seq![joined]);
                assert(done.push(line) =~= seq![line]);
            }
            lemma_fill_keeps_words(ws, first_width, width, i + 1, joined, done);
        } else {
            let done2 = done.push(line);
            assert(done2.push(word).drop_last() =~= done2);
            assert forall|n: int| 0 <= n < done2.len() && (#[trigger] done2[n]).contains(' ')
                implies display_width(done2[n]) <= if n == 0 { first_width } else { width } by {
                if n < done.len() {
                    assert(done2[n] == done[n]);
                }
            }
            lemma_fill_keeps_words(ws, first_width, width, i + 1, word, done2);
        }
    }
}

/// Wrapping only chooses where lines break: the lines, rejoined by single
/// spaces, are the text's words joined by single spaces (nothing dropped,
/// reordered or altered); and a line that holds more than one word — any
/// line with a space — fits its limit (`first_width` for the first line,
/// `width` after). Only a single word wider than the limit overflows.
pub proof fn lemma_wrapping_keeps_words_and_fits(text: Seq<char>, first_width: int, width: int)
    ensures
        join_spaced(wrapped_lines(text, first_width, width)) == join_spaced(words(text)),
        forall|n: int|
            0 <= n < wrapped_lines(text, first_width, width).len() && (
            #[trigger] wrapped_lines(text, first_width, width)[n]).contains(' ') ==> display_width(
                wrapped_lines(text, first_width, width)[n],
            ) <= if n == 0 {
                first_width
            } else {
                width
            },
{
    let ws = words(text);
    lemma_words_are_clean(text);
    assert forall|k: int| 0 <= k < ws.len() implies !(#[trigger] ws[k]).contains(' ') by {
        if ws[k].contains(' ') {
            let m = choose|m: int| 0 <= m < ws[k].len() && ws[k][m] == ' ';
            assert(!is_word_break(ws[k][m]));
        }
    }
    assert(ws.take(0) =~= Seq::<Seq<char>>::empty());
    lemma_fill_keeps_words(ws, first_width, width, 0, seq![], seq![]);
}

/// At most the first `max_lines` of `lines`.
pub open spec fn first_lines(lines: Seq<Seq<char>>, max_lines: int) -> Seq<Seq<char>> {
    if max_lines < lines.len() {
        lines.take(max_lines)
    } else {
        lines
    }
}

/// The characters of each string.
pub open spec fn strings_view(v: Seq<String>) -> Seq<Seq<char>> {
    v.map_values(|s: String| s@)
}

/// The words of `text`, in order.
pub fn split_words(text: &str) -> (ws: Vec<String>)
    ensures
        strings_view(ws@) == words(text@),
{
    let n = text.unicode_len();
    let mut ws: Vec<String> = Vec::new();
    let mut cur = String::new();
    let mut i: usize = 0;
    while i < n
        invariant
            n == text@.len(),
            i <= n,
            cur@.len() > 0 <==> (i > 0 && !is_word_break(text@[i - 1])),
            words(text@.take(i as int)) == (if cur@.len() == 0 {
                strings_view(ws@)
            } else {
                strings_view(ws@).push(cur@)
            }),
        decreases n - i,
    {
        let c = text.get_char(i);
        let ghost before = text@.take(i as int);
        let ghost after = text@.take(i + 1);
        assert(after.drop_last() =~= before);
        assert(after.last() == c);
        if c == ' ' || c == '\t' || c == '\n' || c == '\r' {
            if cur.unicode_len() > 0 {
                let ghost old_ws = strings_view(ws@);
                ws.push(cur);
                assert(strings_view(ws@) =~= old_ws.push(cur@));
                cur = String::new();
            }
        } else {
            let ghost old_cur = cur@;
            if i > 0 {
                assert(after[i - 1] == text@[i - 1]);
            }
            push_char(&mut cur, c);
            proof {
                if old_cur.len() > 0 {
                    assert(after.len() >= 2 && !is_word_break(after[after.len() - 2]));
                    let prev = words(before);
                    assert(prev == strings_view(ws@).push(old_cur));
                    assert(prev.update(prev.len() - 1, prev.last().push(c)) =~= strings_view(
                        ws@,
                    ).push(cur@));
                } else {
                    assert(cur@ =~= seq![c]);
                }
            }
        }
        i += 1;
    }
    assert(text@.take(n as int) =~= text@);
    if cur.unicode_len() > 0 {
        let ghost old_ws = strings_view(ws@);
        ws.push(cur);
        assert(strings_view(ws@) =~= old_ws.push(cur@));
    }
    ws
}

/// `a`, one space, then `b`.
fn joined(a: &String, b: &String) -> (s: String)
    ensures
        s@ == a@ + seq![' '] + b@,
{
    let mut s = a.clone();
    s.append(" ");
    s.append(b.as_str());
    proof {
        reveal_strlit(" ");
    }
    assert(s@ =~= a@ + seq![' '] + b@);
    s
}

/// Wrap `text` into at most `max_lines` lines: words filled greedily, the
/// first line within `first_width` display columns and the others within
/// `width`. Continuation lines start at a word, never with a space.
pub fn wrap_lines(text: &str, first_width: usize, width: usize, max_lines: usize) -> (lines: Vec<
    String,
>)
    ensures
        strings_view(lines@) == first_lines(
            wrapped_lines(text@, first_width as int, width as int),
            max_lines as int,
        ),
{
    let ws = split_words(text);
    let ghost w = strings_view(ws@);
    let mut done: Vec<String> = Vec::new();
    let mut line = String::new();
    let mut i: usize = 0;
    assert(line@ =~= seq![]);
    assert(strings_view(done@) =~= seq![]);
    while i < ws.len()
        invariant
            w == strings_view(ws@),
            w == words(text@),
            i <= ws.len(),
            fill_lines(w, first_width as int, width as int, 0, seq![], seq![]) == fill_lines(
                w,
                first_width as int,
                width as int,
                i as int,
                line@,
                strings_view(done@),
            ),
        decreases ws.len() - i,
    {
        let limit = if done.len() == 0 {
            first_width
        } else {
            width
        };
        assert(w[i as int] == ws@[i as int]@);
        if line.unicode_len() == 0 {
            line = ws[i].clone();
        } else {
            let candidate = joined(&line, &ws[i]);
            if str_width(candidate.as_str()) <= limit {
                line = candidate;
            } else {
                let ghost old_done = strings_view(done@);
                done.push(line);
                assert(strings_view(done@) =~= old_done.push(line@));
                line = ws[i].clone();
            }
        }
        i += 1;
    }
    if line.unicode_len() > 0 {
        let ghost old_done = strings_view(done@);
        done.push(line);
        assert(strings_view(done@) =~= old_done.push(line@));
    }
    let ghost full = strings_view(done@);
    assert(full == wrapped_lines(text@, first_width as int, width as int));
    if max_lines < done.len() {
        done.truncate(max_lines);
        assert(strings_view(done@) =~= full.take(max_lines as int));
    }
    done
}

/// Wrap `text` to `width` display columns, keeping at most `max_lines` lines.
pub fn wrap_text(text: &str, width: usize, max_lines: usize) -> (lines: Vec<String>)
    ensures
        strings_view(lines@) == first_lines(
            wrapped_lines(text@, width as int, width as int),
            max_lines as int,
        ),
{
    wrap_lines(text, width, width, max_lines)
}

} // verus!
