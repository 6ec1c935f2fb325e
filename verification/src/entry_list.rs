//! The rows of the entry list: a month header whenever the month changes, a
//! day row whenever the day changes within it, then the entry; and the text
//! of an entry's row, its time of day in a gutter before the title and its
//! preview below.
use vstd::prelude::*;
use crate::dates::rfc3339_accepts;
use crate::text::{repeat_char, repeat_string, string_of};
use crate::wrap::strings_view;

verus! {

/// One row of the entry list.
#[derive(Debug)]
pub enum EntryRow {
    /// A month header, such as `July 2026`.
    Month(String),
    /// A day row under a month, such as `Wednesday 01`.
    Day(String),
    /// The entry at this index of the journal's entries.
    Entry(usize),
}

/// A row as a plain value.
pub enum RowView {
    Month(Seq<char>),
    Day(Seq<char>),
    Entry(int),
}

pub open spec fn row_view(row: EntryRow) -> RowView {
    match row {
        EntryRow::Month(m) => RowView::Month(m@),
        EntryRow::Day(d) => RowView::Day(d@),
        EntryRow::Entry(i) => RowView::Entry(i as int),
    }
}

pub open spec fn label_view(label: Option<String>) -> Option<Seq<char>> {
    match label {
        Some(s) => Some(s@),
        None => None,
    }
}

/// The month and day labels of each entry, as plain values.
pub open spec fn labels_view(labels: Seq<(Option<String>, Option<String>)>) -> Seq<(Option<Seq<char>>, Option<Seq<char>>)> {
    labels.map_values(|l: (Option<String>, Option<String>)| (label_view(l.0), label_view(l.1)))
}

/// The rows for the first `k` entries, with the month and day the last of
/// them fell in: an entry whose month differs from the last one's opens its
/// month (and forgets the day); one whose day differs opens its day; an
/// entry without a label adds no header for it.
pub open spec fn rows_upto(labels: Seq<(Option<Seq<char>>, Option<Seq<char>>)>, k: int) -> (
    Seq<RowView>,
    Option<Seq<char>>,
    Option<Seq<char>>,
)
    decreases k,
{
    if k <= 0 {
        (seq![], None, None)
    } else {
        let (rows, month, day) = rows_upto(labels, k - 1);
        let (m, d) = labels[k - 1];
        let (rows, month, day) = if m != month {
            (
                match m {
                    Some(text) => rows.push(RowView::Month(text)),
                    None => rows,
                },
                m,
                None::<Seq<char>>,
            )
        } else {
            (rows, month, day)
        };
        let (rows, day) = if d != day {
            (
                match d {
                    Some(text) => rows.push(RowView::Day(text)),
                    None => rows,
                },
                d,
            )
        } else {
            (rows, day)
        };
        (rows.push(RowView::Entry(k - 1)), month, day)
    }
}

pub open spec fn rows_view(rows: Seq<EntryRow>) -> Seq<RowView> {
    rows.map_values(|r: EntryRow| row_view(r))
}

/// Whether two labels are the same.
fn same_label(a: &Option<String>, b: &Option<String>) -> (same: bool)
    ensures
        same == (label_view(*a) == label_view(*b)),
{
    match (a, b) {
        (Some(x), Some(y)) => *x == *y,
        (None, None) => true,
        _ => false,
    }
}

fn copy_label(label: &Option<String>) -> (copy: Option<String>)
    ensures
        label_view(copy) == label_view(*label),
{
    match label {
        Some(s) => Some(string_of(s.as_str())),
        None => None,
    }
}

/// The entry list's rows for entries whose month and day labels are
/// `labels`, in order.
pub fn entry_rows(labels: &Vec<(Option<String>, Option<String>)>) -> (rows: Vec<EntryRow>)
    ensures
        rows_view(rows@) == rows_upto(labels_view(labels@), labels@.len() as int).0,
{
    let ghost lv = labels_view(labels@);
    let mut rows: Vec<EntryRow> = Vec::new();
    let mut month: Option<String> = None;
    let mut day: Option<String> = None;
    let mut k: usize = 0;
    while k < labels.len()
        invariant
            k <= labels@.len(),
            lv == labels_view(labels@),
            rows_upto(lv, k as int) == (rows_view(rows@), label_view(month), label_view(day)),
        decreases labels@.len() - k,
    {
        let ghost before = rows_view(rows@);
        let (m, d) = &labels[k];
        assert(lv[k as int] == (label_view(*m), label_view(*d)));
        if !same_label(m, &month) {
            month = copy_label(m);
            day = None;
            match m {
                Some(text) => {
                    rows.push(EntryRow::Month(string_of(text.as_str())));
                },
                None => {},
            }
        }
        let ghost mid = rows_view(rows@);
        if !same_label(d, &day) {
            day = copy_label(d);
            match d {
                Some(text) => {
                    rows.push(EntryRow::Day(string_of(text.as_str())));
                },
                None => {},
            }
        }
        rows.push(EntryRow::Entry(k));
        proof {
            let (r0, m0, d0) = rows_upto(lv, k as int);
            assert(r0 == before);
            let (lm, ld) = lv[k as int];
            let r1 = if lm != m0 {
                match lm {
                    Some(text) => r0.push(RowView::Month(text)),
                    None => r0,
                }
            } else {
                r0
            };
            assert(mid =~= r1);
        }
        k += 1;
        assert(rows_view(rows@) =~= rows_upto(lv, k as int).0);
    }
    rows
}

/// The entries named by the rows, in order.
pub open spec fn entries_of(rows: Seq<RowView>) -> Seq<int>
    decreases rows.len(),
{
    if rows.len() == 0 {
        seq![]
    } else {
        match rows.last() {
            RowView::Entry(i) => entries_of(rows.drop_last()).push(i),
            _ => entries_of(rows.drop_last()),
        }
    }
}

proof fn lemma_entries_of_push_header(rows: Seq<RowView>, header: RowView)
    requires
        !(header is Entry),
    ensures
        entries_of(rows.push(header)) == entries_of(rows),
{
    assert(rows.push(header).drop_last() =~= rows);
}

/// Every entry gets exactly one row, in the journal's order; the headers
/// between them name no entry.
pub proof fn lemma_every_entry_listed_once_in_order(labels: Seq<(Option<Seq<char>>, Option<Seq<char>>)>, k: int)
    requires
        0 <= k <= labels.len(),
    ensures
        entries_of(rows_upto(labels, k).0) == Seq::new(k as nat, |i: int| i),
    decreases k,
{
    if k > 0 {
        lemma_every_entry_listed_once_in_order(labels, k - 1);
        let (rows, month, day) = rows_upto(labels, k - 1);
        let (m, d) = labels[k - 1];
        let r1 = if m != month {
            match m {
                Some(text) => rows.push(RowView::Month(text)),
                None => rows,
            }
        } else {
            rows
        };
        let day1 = if m != month { None::<Seq<char>> } else { day };
        let r2 = if d != day1 {
            match d {
                Some(text) => r1.push(RowView::Day(text)),
                None => r1,
            }
        } else {
            r1
        };
        if m != month {
            if let Some(text) = m {
                lemma_entries_of_push_header(rows, RowView::Month(text));
            }
        }
        if d != day1 {
            if let Some(text) = d {
                lemma_entries_of_push_header(r1, RowView::Day(text));
            }
        }
        assert(r2.push(RowView::Entry(k - 1)).drop_last() =~= r2);
        assert(Seq::new((k - 1) as nat, |i: int| i).push(k - 1) =~= Seq::new(k as nat, |i: int| i));
    }
}

/// Columns of the time gutter before an entry's title.
pub const TIME_GUTTER_WIDTH: usize = 7;

/// The text of an entry's row given its time of day, if it has one: the
/// time, two spaces and the title (or the title behind a blank gutter), and
/// the preview under it behind the gutter when there is one.
pub open spec fn spec_entry_list_text(time: Option<Seq<char>>, title: Seq<char>, preview: Seq<char>) -> Seq<Seq<char>> {
    let first = match time {
        Some(t) if t.len() > 0 => t + repeat_char(' ', sat_pad(t.len())) + "  "@ + title,
        _ => repeat_char(' ', TIME_GUTTER_WIDTH as nat) + title,
    };
    if preview.len() == 0 {
        seq![first]
    } else {
        seq![first, repeat_char(' ', TIME_GUTTER_WIDTH as nat) + preview]
    }
}

/// Spaces that pad a time to five characters.
pub open spec fn sat_pad(len: nat) -> nat {
    if len < 5 { (5 - len) as nat } else { 0 }
}

fn append_all(target: &mut String, text: &str)
    ensures
        final(target)@ == old(target)@ + text@,
{
    target.append(text);
}

/// The text of an entry's row for the time `time` (as `HH:MM`).
pub fn entry_list_text(time: Option<&str>, title: &str, preview: &str) -> (lines: Vec<String>)
    ensures
        strings_view(lines@) == spec_entry_list_text(
            match time {
                Some(t) => Some(t@),
                None => None,
            },
            title@,
            preview@,
        ),
{
    proof {
        reveal_strlit("  ");
    }
    let mut first = match time {
        Some(t) if t.unicode_len() > 0 => {
            let mut line = string_of(t);
            let n = t.unicode_len();
            let pad = if n < 5 { 5 - n } else { 0 };
            let spaces = repeat_string(' ', pad);
            append_all(&mut line, spaces.as_str());
            append_all(&mut line, "  ");
            line
        },
        _ => repeat_string(' ', TIME_GUTTER_WIDTH),
    };
    append_all(&mut first, title);
    let mut lines: Vec<String> = Vec::new();
    lines.push(first);
    if preview.unicode_len() > 0 {
        let mut second = repeat_string(' ', TIME_GUTTER_WIDTH);
        append_all(&mut second, preview);
        lines.push(second);
    }
    assert(strings_view(lines@) =~= spec_entry_list_text(
        match time {
            Some(t) => Some(t@),
            None => None,
        },
        title@,
        preview@,
    ));
    lines
}

/// An ASCII digit.
pub open spec fn is_digit(c: char) -> bool {
    '0' <= c && c <= '9'
}

/// `HH:MM`: two digits, a colon, two digits.
pub open spec fn clock_shape(t: Seq<char>) -> bool {
    t.len() == 5 && is_digit(t[0]) && is_digit(t[1]) && t[2] == ':' && is_digit(t[3]) && is_digit(t[4])
}

/// `DateTime::parse_from_rfc3339`, then `with_timezone(&Local)` and
/// `format("%H:%M")`: the local time of day of an RFC 3339 timestamp.
/// Trusted to succeed exactly when the parser accepts the text, and, as
/// `chrono` documents `%H` and `%M` (both zero-padded to two digits), to
/// give two digits, a colon and two digits. Which time comes back depends on the machine's time
/// zone, so nothing more is said of it.
#[verifier::external_body]
fn local_time_of_day(text: &str) -> (time: Option<String>)
    ensures
        time is Some <==> rfc3339_accepts(text@),
        time matches Some(t) ==> clock_shape(t@),
{
    chrono::DateTime::parse_from_rfc3339(text).ok().map(|stamp| stamp.with_timezone(&chrono::Local).format("%H:%M").to_string())
}

/// The text of an entry's row: its local time of creation, when it has a
/// timestamp, in a gutter before the title, and its preview below. The time
/// itself depends on the machine's time zone: its place in the row, its
/// `HH:MM` shape and the title after it do not.
pub fn entry_row_text(created_at: Option<&str>, title: &str, preview: &str) -> (lines: Vec<String>)
    ensures
        lines@.len() == (if preview@.len() == 0 { 1int } else { 2int }),
        match created_at {
            Some(c) if rfc3339_accepts(c@) => lines@[0]@.len() == 7 + title@.len()
                && clock_shape(lines@[0]@.take(5)) && lines@[0]@.subrange(5, 7) == "  "@ && lines@[0]@.skip(7) == title@,
            _ => lines@[0]@ == repeat_char(' ', TIME_GUTTER_WIDTH as nat) + title@,
        },
        preview@.len() > 0 ==> lines@[1]@ == repeat_char(' ', TIME_GUTTER_WIDTH as nat) + preview@,
{
    proof {
        reveal_strlit("  ");
    }
    let time = match created_at {
        Some(c) => local_time_of_day(c),
        None => None,
    };
    let lines = match &time {
        Some(t) => entry_list_text(Some(t.as_str()), title, preview),
        None => entry_list_text(None, title, preview),
    };
    proof {
        let v = strings_view(lines@);
        assert(v.len() == lines@.len());
        assert(v[0] == lines@[0]@);
        if preview@.len() > 0 {
            assert(v[1] == lines@[1]@);
        }
        match time {
            Some(t) => {
                assert(sat_pad(t@.len()) == 0);
                assert(repeat_char(' ', 0) =~= Seq::<char>::empty());
                let first = t@ + repeat_char(' ', 0) + "  "@ + title@;
                assert(first.subrange(5, 7) =~= "  "@);
                assert(first.skip(7) =~= title@);
                assert(first.take(5) =~= t@);
            },
            None => {},
        }
    }
    lines
}


/// How an entry card is drawn in the list.
#[derive(Clone, Copy, Debug, PartialEq, Eq, Structural)]
pub enum CardLook {
    /// On the panel, as spacer and divider rows are.
    Plain,
    /// On the raised surface, as every card is in flat chrome.
    Raised,
    /// Lifted to the hover surface.
    Hovered,
}

/// How the row showing entry `index` (`None` for a divider or spacer row)
/// is drawn: the hovered card lifts, unless it is the selection the list
/// draws highlighted (`selected` is `None` when the highlight is off); in
/// flat chrome every other card sits on the raised surface.
pub open spec fn spec_card_look(index: Option<usize>, hovered: Option<usize>, selected: Option<usize>, flat: bool) -> CardLook {
    if index is Some && index == hovered && index != selected {
        CardLook::Hovered
    } else if flat && index is Some {
        CardLook::Raised
    } else {
        CardLook::Plain
    }
}

pub fn card_look(index: Option<usize>, hovered: Option<usize>, selected: Option<usize>, flat: bool) -> (look: CardLook)
    ensures
        look == spec_card_look(index, hovered, selected, flat),
{
    match index {
        Some(i) => {
            let is_hovered = match hovered {
                Some(h) => h == i,
                None => false,
            };
            let is_selected = match selected {
                Some(s) => s == i,
                None => false,
            };
            if is_hovered && !is_selected {
                CardLook::Hovered
            } else if flat {
                CardLook::Raised
            } else {
                CardLook::Plain
            }
        },
        None => CardLook::Plain,
    }
}

/// The entry panel's title: `Search` while showing search results,
/// `Entries` while browsing.
pub fn entry_panel_title(mode: crate::footer::Mode) -> (title: String)
    ensures
        title@ == match mode {
            crate::footer::Mode::Search => "Search"@,
            crate::footer::Mode::Browse => "Entries"@,
        },
{
    match mode {
        crate::footer::Mode::Search => crate::text::string_of("Search"),
        crate::footer::Mode::Browse => crate::text::string_of("Entries"),
    }
}

} // verus!
