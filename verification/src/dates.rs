//! The calendar day an entry is grouped under, and the month and day labels
//! of the entry list: from the entry's creation timestamp in local time,
//! falling back to the `YYYY-MM-DD` folder the entry is stored in.
use vstd::prelude::*;
use chrono::Datelike;

verus! {

/// A calendar date of the proleptic Gregorian calendar.
#[derive(Clone, Copy, Debug, PartialEq, Eq, Structural)]
pub struct CivilDate {
    pub year: i32,
    pub month: u32,
    pub day: u32,
}

/// Whether `year` is a leap year of the Gregorian calendar.
pub open spec fn is_leap_year(year: int) -> bool {
    (year % 4 == 0 && year % 100 != 0) || year % 400 == 0
}

/// The number of days in `month` of `year`.
pub open spec fn days_in_month(year: int, month: int) -> int {
    if month == 2 {
        if is_leap_year(year) { 29 } else { 28 }
    } else if month == 4 || month == 6 || month == 9 || month == 11 {
        30
    } else {
        31
    }
}

/// A date `chrono` can represent: a real month and day, in a year from
/// 262143 BCE to 262142 CE.
pub open spec fn civil_valid(d: CivilDate) -> bool {
    &&& -262143 <= d.year <= 262142
    &&& 1 <= d.month <= 12
    &&& 1 <= d.day <= days_in_month(d.year as int, d.month as int)
}

/// Whether `chrono`'s RFC 3339 parser accepts `text`.
pub uninterp spec fn rfc3339_accepts(text: Seq<char>) -> bool;

/// The date `chrono` parses from `text` with the pattern `%Y-%m-%d`, if any.
pub uninterp spec fn ymd_date(text: Seq<char>) -> Option<CivilDate>;

/// The text `chrono` formats `date` to with `pattern`.
pub uninterp spec fn formatted_date(date: CivilDate, pattern: Seq<char>) -> Seq<char>;

/// The UTC calendar date of the instant `chrono`'s RFC 3339 parser reads
/// from `text`.
pub uninterp spec fn rfc3339_utc_date(text: Seq<char>) -> CivilDate;

/// The day after `d`.
pub open spec fn next_day(d: CivilDate) -> CivilDate {
    if (d.day as int) < days_in_month(d.year as int, d.month as int) {
        CivilDate { day: (d.day + 1) as u32, ..d }
    } else if d.month < 12 {
        CivilDate { month: (d.month + 1) as u32, day: 1, ..d }
    } else {
        CivilDate { year: (d.year + 1) as i32, month: 1, day: 1 }
    }
}

/// `a` is `b`, the day before it, or the day after it.
pub open spec fn within_a_day(a: CivilDate, b: CivilDate) -> bool {
    a == b || a == next_day(b) || b == next_day(a)
}

/// `DateTime::parse_from_rfc3339`, then `with_timezone(&Local)` and
/// `date_naive()`: the local calendar date of an RFC 3339 timestamp. Trusted
/// to succeed exactly when the parser accepts the text, to return a date
/// `chrono` can represent, and, since a `chrono` offset is less than a day
/// either way, a date within one day of the instant's UTC date. Which of
/// those days comes back depends on the machine's time zone, and is left
/// unsaid.
#[verifier::external_body]
fn rfc3339_local_date(text: &str) -> (date: Option<CivilDate>)
    ensures
        date is Some <==> rfc3339_accepts(text@),
        date matches Some(d) ==> civil_valid(d) && within_a_day(d, rfc3339_utc_date(text@)),
{
    chrono::DateTime::parse_from_rfc3339(text).ok().map(|stamp| {
        let d = stamp.with_timezone(&chrono::Local).date_naive();
        CivilDate { year: d.year(), month: d.month(), day: d.day() }
    })
}

/// `NaiveDate::parse_from_str(text, "%Y-%m-%d")`: trusted to return
/// `ymd_date` of the text, which `chrono` can only build for a valid date.
#[verifier::external_body]
fn parse_ymd(text: &str) -> (date: Option<CivilDate>)
    ensures
        date == ymd_date(text@),
        date matches Some(d) ==> civil_valid(d),
{
    chrono::NaiveDate::parse_from_str(text, "%Y-%m-%d").ok().map(|d| CivilDate {
        year: d.year(),
        month: d.month(),
        day: d.day(),
    })
}

/// The digit for `n` (0 to 9).
pub open spec fn digit_of(n: int) -> char {
    crate::text::digit_char(n as nat)
}

/// `y` as four zero-padded digits (0 to 9999).
pub open spec fn four_digits(y: int) -> Seq<char> {
    seq![digit_of(y / 1000), digit_of(y / 100 % 10), digit_of(y / 10 % 10), digit_of(y % 10)]
}

/// `n` as two zero-padded digits (0 to 99).
pub open spec fn two_digits(n: int) -> Seq<char> {
    seq![digit_of(n / 10), digit_of(n % 10)]
}

/// How `chrono`'s `%Y` writes `year`: four zero-padded digits from 0 to
/// 9999, otherwise a sign and at least four digits.
pub open spec fn year_text(t: Seq<char>, year: int) -> bool {
    if 0 <= year <= 9999 {
        t == four_digits(year)
    } else {
        &&& t.len() >= 5
        &&& t[0] == '+' || t[0] == '-'
        &&& forall|i: int| 1 <= i < t.len() ==> crate::entry_list::is_digit(#[trigger] t[i])
    }
}

/// The English name of month `m` (1 to 12).
pub open spec fn month_name(m: int) -> Seq<char> {
    if m == 1 { "January"@ } else if m == 2 { "February"@ } else if m == 3 { "March"@ } else if m == 4 {
        "April"@
    } else if m == 5 { "May"@ } else if m == 6 { "June"@ } else if m == 7 { "July"@ } else if m == 8 {
        "August"@
    } else if m == 9 { "September"@ } else if m == 10 { "October"@ } else if m == 11 { "November"@ } else {
        "December"@
    }
}

/// The English name of weekday `w`, counted from Sunday (0 to 6).
pub open spec fn weekday_name(w: int) -> Seq<char> {
    if w == 0 { "Sunday"@ } else if w == 1 { "Monday"@ } else if w == 2 { "Tuesday"@ } else if w == 3 {
        "Wednesday"@
    } else if w == 4 { "Thursday"@ } else if w == 5 { "Friday"@ } else { "Saturday"@ }
}

/// The month offsets of the day-of-week formula.
pub open spec fn month_offset(m: int) -> int {
    if m == 1 { 0 } else if m == 2 { 3 } else if m == 3 { 2 } else if m == 4 { 5 } else if m == 5 { 0 } else if m
        == 6 { 3 } else if m == 7 { 5 } else if m == 8 { 1 } else if m == 9 { 4 } else if m == 10 { 6 } else if m
        == 11 { 2 } else { 4 }
}

/// The weekday of a proleptic Gregorian date, counted from Sunday.
pub open spec fn weekday_of(d: CivilDate) -> int {
    let y = if d.month < 3 { d.year - 1 } else { d.year as int };
    (y + y / 4 - y / 100 + y / 400 + month_offset(d.month as int) + d.day) % 7
}

/// `NaiveDate::format(pattern)` of a valid date, for the patterns the
/// library uses: trusted to return `formatted_date` of the date and
/// pattern, and, as `chrono`'s documentation and its default (English)
/// names give: for `%Y` the year as `chrono` writes it (`year_text`); for
/// `%B %Y` the month's name, a space and the year; for `%A %d` the
/// weekday's name, a space and the zero-padded day.
#[verifier::external_body]
pub(crate) fn format_date(date: CivilDate, pattern: &str) -> (text: String)
    requires
        civil_valid(date),
        pattern@ == "%B %Y"@ || pattern@ == "%A %d"@ || pattern@ == "%Y"@,
    ensures
        text@ == formatted_date(date, pattern@),
        pattern@ == "%Y"@ ==> year_text(text@, date.year as int),
        pattern@ == "%B %Y"@ ==> text@.take(month_name(date.month as int).len() as int + 1) == month_name(date.month as int) + " "@
            && year_text(text@.skip(month_name(date.month as int).len() as int + 1), date.year as int),
        pattern@ == "%A %d"@ ==> text@ == weekday_name(weekday_of(date)) + " "@ + two_digits(date.day as int),
{
    chrono::NaiveDate::from_ymd_opt(date.year, date.month, date.day)
        .map(|d| d.format(pattern).to_string())
        .unwrap_or_default()
}

/// The path's components: the runs of characters between `/` separators,
/// empty ones dropped.
pub open spec fn path_components(path: Seq<char>) -> Seq<Seq<char>>
    decreases path.len(),
{
    if path.len() == 0 {
        seq![]
    } else {
        let prev = path_components(path.drop_last());
        let c = path.last();
        if c == '/' {
            prev
        } else if path.len() >= 2 && path[path.len() - 2] != '/' {
            prev.update(prev.len() - 1, prev.last().push(c))
        } else {
            prev.push(seq![c])
        }
    }
}

proof fn lemma_components_nonempty(path: Seq<char>)
    requires
        path.len() > 0,
        path.last() != '/',
    ensures
        path_components(path).len() > 0,
    decreases path.len(),
{
    if path.len() >= 2 && path[path.len() - 2] != '/' {
        assert(path.drop_last().last() == path[path.len() - 2]);
        lemma_components_nonempty(path.drop_last());
    }
}

/// The name of the folder holding the file at `path`: its next-to-last
/// component, if it has one.
pub open spec fn folder_name(path: Seq<char>) -> Option<Seq<char>> {
    let parts = path_components(path);
    if parts.len() >= 2 {
        Some(parts[parts.len() - 2])
    } else {
        None
    }
}

/// The name of the folder holding the file at `path`.
pub fn parent_folder_name(path: &str) -> (name: Option<String>)
    ensures
        match name {
            Some(n) => folder_name(path@) == Some(n@),
            None => folder_name(path@) is None,
        },
{
    let n = path.unicode_len();
    let mut parts: Vec<String> = Vec::new();
    let mut cur = String::new();
    let mut i: usize = 0;
    while i < n
        invariant
            n == path@.len(),
            i <= n,
            cur@.len() > 0 <==> (i > 0 && path@[i - 1] != '/'),
            path_components(path@.take(i as int)) == (if cur@.len() == 0 {
                parts@.map_values(|s: String| s@)
            } else {
                parts@.map_values(|s: String| s@).push(cur@)
            }),
        decreases n - i,
    {
        let c = path.get_char(i);
        let ghost before = path@.take(i as int);
        let ghost after = path@.take(i + 1);
        assert(after.drop_last() =~= before);
        assert(after.last() == c);
        if c == '/' {
            if cur.unicode_len() > 0 {
                let ghost old_parts = parts@.map_values(|s: String| s@);
                parts.push(cur);
                assert(parts@.map_values(|s: String| s@) =~= old_parts.push(cur@));
                cur = String::new();
            }
        } else {
            let ghost old_cur = cur@;
            if i > 0 {
                assert(after[i - 1] == path@[i - 1]);
            }
            crate::text::push_char(&mut cur, c);
            proof {
                if old_cur.len() > 0 {
                    let prev = path_components(before);
                    assert(prev == parts@.map_values(|s: String| s@).push(old_cur));
                    assert(prev.update(prev.len() - 1, prev.last().push(c)) =~= parts@.map_values(
                        |s: String| s@,
                    ).push(cur@));
                } else {
                    assert(cur@ =~= seq![c]);
                }
            }
        }
        i += 1;
    }
    assert(path@.take(n as int) =~= path@);
    if cur.unicode_len() > 0 {
        let ghost old_parts = parts@.map_values(|s: String| s@);
        parts.push(cur);
        assert(parts@.map_values(|s: String| s@) =~= old_parts.push(cur@));
    }
    let count = parts.len();
    if count >= 2 {
        let name = parts[count - 2].clone();
        Some(name)
    } else {
        None
    }
}

/// The date a `YYYY-MM-DD` storage folder names.
pub open spec fn folder_date(path: Seq<char>) -> Option<CivilDate> {
    match folder_name(path) {
        Some(name) => ymd_date(name),
        None => None,
    }
}

/// The day an entry is grouped under: the local date of its creation
/// timestamp when that parses (whatever the storage folder says), otherwise
/// the date its storage folder names. Which local date a timestamp falls on
/// depends on the machine's time zone: it is within a day of the instant's
/// UTC date.
pub fn entry_group_date(created_at: Option<&str>, path: &str) -> (date: Option<CivilDate>)
    ensures
        match created_at {
            Some(t) if rfc3339_accepts(t@) => date matches Some(d) && civil_valid(d) && within_a_day(
                d,
                rfc3339_utc_date(t@),
            ),
            _ => date == folder_date(path@),
        },
        date matches Some(d) ==> civil_valid(d),
{
    if let Some(t) = created_at {
        let local = rfc3339_local_date(t);
        if local.is_some() {
            return local;
        }
    }
    match parent_folder_name(path) {
        Some(name) => parse_ymd(name.as_str()),
        None => None,
    }
}

/// The day an entry is grouped under with its two labels, both formatted
/// from that one day: the month divider (`July 2026`) and the day divider
/// (`Wednesday 01`).
pub struct EntryGroup {
    pub date: CivilDate,
    pub month_label: String,
    pub day_label: String,
}

/// An entry's group day (as `entry_group_date` gives it) and the labels of
/// that day.
pub fn entry_group(created_at: Option<&str>, path: &str) -> (group: Option<EntryGroup>)
    ensures
        match created_at {
            Some(t) if rfc3339_accepts(t@) => group matches Some(g) && within_a_day(g.date, rfc3339_utc_date(t@)),
            _ => match folder_date(path@) {
                Some(d) => group matches Some(g) && g.date == d,
                None => group is None,
            },
        },
        group matches Some(g) ==> civil_valid(g.date) && g.month_label@ == formatted_date(g.date, "%B %Y"@)
            && g.day_label@ == formatted_date(g.date, "%A %d"@),
{
    match entry_group_date(created_at, path) {
        Some(date) => Some(
            EntryGroup { date, month_label: format_date(date, "%B %Y"), day_label: format_date(date, "%A %d") },
        ),
        None => None,
    }
}

/// The month label an entry is grouped under (`July 2026`).
pub fn entry_month_label(created_at: Option<&str>, path: &str) -> (label: Option<String>)
    ensures
        match created_at {
            Some(t) if rfc3339_accepts(t@) => label matches Some(l) && exists|d: CivilDate|
                civil_valid(d) && within_a_day(d, rfc3339_utc_date(t@)) && l@ == #[trigger] formatted_date(
                    d,
                    "%B %Y"@,
                ),
            _ => match folder_date(path@) {
                Some(d) => label matches Some(l) && l@ == formatted_date(d, "%B %Y"@),
                None => label is None,
            },
        },
{
    match entry_group_date(created_at, path) {
        Some(d) => {
            let label = format_date(d, "%B %Y");
            assert(civil_valid(d) && label@ == formatted_date(d, "%B %Y"@));
            Some(label)
        },
        None => None,
    }
}

/// The day label of an entry (`Wednesday 01`).
pub fn entry_day_label(created_at: Option<&str>, path: &str) -> (label: Option<String>)
    ensures
        match created_at {
            Some(t) if rfc3339_accepts(t@) => label matches Some(l) && exists|d: CivilDate|
                civil_valid(d) && within_a_day(d, rfc3339_utc_date(t@)) && l@ == #[trigger] formatted_date(
                    d,
                    "%A %d"@,
                ),
            _ => match folder_date(path@) {
                Some(d) => label matches Some(l) && l@ == formatted_date(d, "%A %d"@),
                None => label is None,
            },
        },
{
    match entry_group_date(created_at, path) {
        Some(d) => {
            let label = format_date(d, "%A %d");
            assert(civil_valid(d) && label@ == formatted_date(d, "%A %d"@));
            Some(label)
        },
        None => None,
    }
}

/// The month label to pin on the entry list's border while browsing: the
/// latest month whose divider row (`sections[i].0`) has scrolled strictly
/// above the viewport top `offset`, or the first month before any has. `None`
/// outside browse mode or without entries.
pub open spec fn spec_sticky_month(sections: Seq<(usize, String)>, is_browse: bool, offset: int) -> Option<Seq<char>> {
    if !is_browse || sections.len() == 0 {
        None
    } else {
        match last_scrolled_past(sections, offset, sections.len() as int) {
            Some(i) => Some(sections[i].1@),
            None => Some(sections[0].1@),
        }
    }
}

/// The last of the first `n` sections whose divider lies above `offset`.
pub open spec fn last_scrolled_past(sections: Seq<(usize, String)>, offset: int, n: int) -> Option<int>
    decreases n,
{
    if n <= 0 {
        None
    } else if sections[n - 1].0 < offset {
        Some(n - 1)
    } else {
        last_scrolled_past(sections, offset, n - 1)
    }
}

/// The month label pinned to the entry list's border.
pub fn sticky_month_label(sections: &[(usize, String)], is_browse: bool, offset: usize) -> (label: Option<String>)
    ensures
        match label {
            Some(l) => spec_sticky_month(sections@, is_browse, offset as int) == Some(l@),
            None => spec_sticky_month(sections@, is_browse, offset as int) is None,
        },
{
    if !is_browse || sections.len() == 0 {
        return None;
    }
    let mut n = sections.len();
    while n > 0
        invariant
            n <= sections.len(),
            sections.len() > 0,
            is_browse,
            last_scrolled_past(sections@, offset as int, sections@.len() as int)
                == last_scrolled_past(sections@, offset as int, n as int),
        decreases n,
    {
        if sections[n - 1].0 < offset {
            return Some(sections[n - 1].1.clone());
        }
        n -= 1;
    }
    Some(sections[0].1.clone())
}

} // verus!
