//! Text measurement and the small string builders the layouts share.
use vstd::prelude::*;

verus! {

/// The number of terminal columns `text` occupies, as the `unicode-width`
/// crate measures it.
pub uninterp spec fn display_width(text: Seq<char>) -> nat;

/// Every character is printable ASCII (U+0020 to U+007E).
pub open spec fn printable_ascii(text: Seq<char>) -> bool {
    forall|i: int| 0 <= i < text.len() ==> 0x20 <= (#[trigger] text[i] as u32) < 0x7f
}

/// `UnicodeWidthStr::width` of `unicode-width`: the displayed width of `text`
/// in terminal columns. Trusted to return `display_width` of the text, which
/// depends on the text alone; and, as the crate's documented rules give (no
/// character is wider than three columns and every ligature is narrower than
/// its parts), to be at most three columns per character, and one column a
/// character for printable ASCII (no ligature involves it).
#[verifier::external_body]
pub(crate) fn str_width(text: &str) -> (width: usize)
    ensures
        width == display_width(text@),
        width <= 3 * text@.len(),
        printable_ascii(text@) ==> width == text@.len(),
{
    unicode_width::UnicodeWidthStr::width(text)
}

/// `String::push` from std: appends one character.
#[verifier::external_body]
pub(crate) fn push_char(text: &mut String, c: char)
    ensures
        final(text)@ == old(text)@.push(c),
{
    text.push(c);
}

/// `n` copies of `c`.
pub open spec fn repeat_char(c: char, n: nat) -> Seq<char> {
    Seq::new(n, |_i: int| c)
}

/// A string of `n` copies of `c`.
pub fn repeat_string(c: char, n: usize) -> (text: String)
    ensures
        text@ == repeat_char(c, n as nat),
{
    let mut text = String::new();
    let mut i = 0usize;
    while i < n
        invariant
            i <= n,
            text@ == repeat_char(c, i as nat),
        decreases n - i,
    {
        push_char(&mut text, c);
        i += 1;
        assert(text@ =~= repeat_char(c, i as nat));
    }
    text
}

/// A string holding exactly the characters of `text`.
pub fn string_of(text: &str) -> (owned: String)
    ensures
        owned@ == text@,
{
    let mut owned = String::new();
    owned.append(text);
    assert(owned@ =~= text@);
    owned
}

/// The decimal digits of `n`, most significant first, without leading zeros
/// (`"0"` for zero).
pub open spec fn decimal(n: nat) -> Seq<char>
    decreases n,
{
    if n < 10 {
        seq![digit_char(n)]
    } else {
        decimal(n / 10).push(digit_char(n % 10))
    }
}

/// The ASCII digit for `d < 10`.
pub open spec fn digit_char(d: nat) -> char {
    if d == 0 {
        '0'
    } else if d == 1 {
        '1'
    } else if d == 2 {
        '2'
    } else if d == 3 {
        '3'
    } else if d == 4 {
        '4'
    } else if d == 5 {
        '5'
    } else if d == 6 {
        '6'
    } else if d == 7 {
        '7'
    } else if d == 8 {
        '8'
    } else {
        '9'
    }
}

fn digit(d: u64) -> (c: char)
    requires
        d < 10,
    ensures
        c == digit_char(d as nat),
{
    if d == 0 {
        '0'
    } else if d == 1 {
        '1'
    } else if d == 2 {
        '2'
    } else if d == 3 {
        '3'
    } else if d == 4 {
        '4'
    } else if d == 5 {
        '5'
    } else if d == 6 {
        '6'
    } else if d == 7 {
        '7'
    } else if d == 8 {
        '8'
    } else {
        '9'
    }
}

/// `n` written in decimal, as `format!("{n}")` prints it.
pub fn decimal_string(n: u64) -> (text: String)
    ensures
        text@ == decimal(n as nat),
    decreases n,
{
    if n < 10 {
        let mut text = String::new();
        push_char(&mut text, digit(n));
        assert(text@ =~= decimal(n as nat));
        text
    } else {
        let mut text = decimal_string(n / 10);
        push_char(&mut text, digit(n % 10));
        text
    }
}

} // verus!
