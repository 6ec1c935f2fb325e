//! The journal stats preview: how many entries and distinct days a journal
//! has, the years it spans, and where the cards sit in the panel.
use vstd::prelude::*;
use crate::dates::{civil_valid, format_date, formatted_date, CivilDate};
use crate::geometry::Rect;
use crate::split::{part_of, plain_fit, span_on, split_area, Axis, Packing, SizeRule};
use crate::text::string_of;

verus! {

/// The dates among the entries' group dates.
pub open spec fn date_set(dates: Seq<Option<CivilDate>>) -> Set<CivilDate>
    decreases dates.len(),
{
    if dates.len() == 0 {
        Set::empty()
    } else {
        match dates.last() {
            Some(d) => date_set(dates.drop_last()).insert(d),
            None => date_set(dates.drop_last()),
        }
    }
}

proof fn lemma_date_set_finite(dates: Seq<Option<CivilDate>>)
    ensures
        date_set(dates).finite(),
    decreases dates.len(),
{
    if dates.len() > 0 {
        lemma_date_set_finite(dates.drop_last());
    }
}

/// How many distinct days the entries were written on (entries without a
/// date are not counted).
pub fn active_day_count(dates: &Vec<Option<CivilDate>>) -> (count: usize)
    ensures
        count == date_set(dates@).len(),
{
    let mut days: Vec<CivilDate> = Vec::new();
    let mut i: usize = 0;
    while i < dates.len()
        invariant
            i <= dates@.len(),
            days@.no_duplicates(),
            days@.to_set() == date_set(dates@.take(i as int)),
        decreases dates@.len() - i,
    {
        assert(dates@.take(i + 1).drop_last() =~= dates@.take(i as int));
        match dates[i] {
            Some(d) => {
                let mut seen = false;
                let mut k: usize = 0;
                while k < days.len()
                    invariant
                        k <= days@.len(),
                        seen <==> exists|j: int| 0 <= j < k && days@[j] == d,
                    decreases days@.len() - k,
                {
                    if days[k] == d {
                        seen = true;
                    }
                    k += 1;
                }
                if !seen {
                    let ghost before = days@;
                    days.push(d);
                    assert forall|x: CivilDate| #[trigger] days@.to_set().contains(x) == before.to_set().insert(
                        d,
                    ).contains(x) by {
                        if days@.contains(x) && x != d {
                            let j = choose|j: int| 0 <= j < days@.len() && days@[j] == x;
                            assert(before[j] == x);
                        }
                        if x == d {
                            assert(days@[before.len() as int] == d);
                        }
                        if before.contains(x) {
                            let j = choose|j: int| 0 <= j < before.len() && before[j] == x;
                            assert(days@[j] == x);
                        }
                    }
                    assert(days@.to_set() =~= before.to_set().insert(d));
                } else {
                    assert(days@.to_set() =~= days@.to_set().insert(d));
                }
            },
            None => {},
        }
        i += 1;
    }
    assert(dates@.take(dates@.len() as int) =~= dates@);
    proof {
        days@.unique_seq_to_set();
    }
    days.len()
}

/// Whether `a` is an earlier day than `b`.
pub open spec fn date_before(a: CivilDate, b: CivilDate) -> bool {
    a.year < b.year || (a.year == b.year && (a.month < b.month || (a.month == b.month && a.day
        < b.day)))
}

/// The oldest and newest of the entries' dates, if any entry has one.
pub open spec fn date_span(dates: Seq<Option<CivilDate>>) -> Option<(CivilDate, CivilDate)>
    decreases dates.len(),
{
    if dates.len() == 0 {
        None
    } else {
        let before = date_span(dates.drop_last());
        match dates.last() {
            None => before,
            Some(d) => match before {
                None => Some((d, d)),
                Some((oldest, newest)) => Some(
                    (
                        if date_before(d, oldest) { d } else { oldest },
                        if date_before(newest, d) { d } else { newest },
                    ),
                ),
            },
        }
    }
}

/// The entries span no dates exactly when none is dated.
proof fn lemma_span_none_iff_undated(dates: Seq<Option<CivilDate>>)
    ensures
        date_span(dates) is None <==> forall|i: int| 0 <= i < dates.len() ==> #[trigger] dates[i] is None,
    decreases dates.len(),
{
    if dates.len() > 0 {
        lemma_span_none_iff_undated(dates.drop_last());
        assert forall|i: int| 0 <= i < dates.len() - 1 implies #[trigger] dates[i] == dates.drop_last()[i] by {}
        if date_span(dates) is None {
            assert forall|i: int| 0 <= i < dates.len() implies #[trigger] dates[i] is None by {
                if i < dates.len() - 1 {
                    assert(dates.drop_last()[i] == dates[i]);
                }
            }
        } else {
            if dates.last() is None {
                let i = choose|i: int| 0 <= i < dates.drop_last().len() && !(#[trigger] dates.drop_last()[i] is None);
                assert(dates[i] == dates.drop_last()[i]);
            }
        }
    }
}

/// Every date is a valid one.
pub open spec fn all_valid(dates: Seq<Option<CivilDate>>) -> bool {
    forall|i: int| 0 <= i < dates.len() ==> (#[trigger] dates[i] matches Some(d) ==> civil_valid(d))
}

/// The years a journal spans: `2024` when its oldest and newest dated
/// entries share a year, `2023-2026` otherwise; `None` without dated entries.
pub open spec fn spec_year_range(dates: Seq<Option<CivilDate>>) -> Option<Seq<char>> {
    match date_span(dates) {
        None => None,
        Some((oldest, newest)) => {
            let first = formatted_date(oldest, "%Y"@);
            let last = formatted_date(newest, "%Y"@);
            if first == last {
                Some(first)
            } else {
                Some(first + "-"@ + last)
            }
        },
    }
}

proof fn lemma_date_span_valid(dates: Seq<Option<CivilDate>>)
    requires
        all_valid(dates),
    ensures
        date_span(dates) matches Some((o, n)) ==> civil_valid(o) && civil_valid(n),
    decreases dates.len(),
{
    if dates.len() > 0 {
        assert(all_valid(dates.drop_last())) by {
            assert forall|i: int| 0 <= i < dates.drop_last().len() implies (
            #[trigger] dates.drop_last()[i] matches Some(d) ==> civil_valid(d)) by {
                assert(dates.drop_last()[i] == dates[i]);
            }
        }
        assert(dates[dates.len() - 1] == dates.last());
        lemma_date_span_valid(dates.drop_last());
    }
}

/// The years the entries span, formatted as their calendar years.
pub fn journal_year_range(dates: &Vec<Option<CivilDate>>) -> (range: Option<String>)
    requires
        all_valid(dates@),
    ensures
        match range {
            Some(r) => spec_year_range(dates@) == Some(r@) && r@.len() > 0 && (crate::entry_list::is_digit(r@[0])
                || r@[0] == '+' || r@[0] == '-'),
            None => spec_year_range(dates@) is None,
        },
{
    let mut span: Option<(CivilDate, CivilDate)> = None;
    let mut i: usize = 0;
    while i < dates.len()
        invariant
            i <= dates@.len(),
            span == date_span(dates@.take(i as int)),
        decreases dates@.len() - i,
    {
        assert(dates@.take(i + 1).drop_last() =~= dates@.take(i as int));
        match dates[i] {
            Some(d) => {
                span = match span {
                    None => Some((d, d)),
                    Some((oldest, newest)) => {
                        let earlier = oldest.year > d.year || (oldest.year == d.year && (oldest.month
                            > d.month || (oldest.month == d.month && oldest.day > d.day)));
                        let later = d.year > newest.year || (d.year == newest.year && (d.month
                            > newest.month || (d.month == newest.month && d.day > newest.day)));
                        Some(
                            (if earlier { d } else { oldest }, if later { d } else { newest }),
                        )
                    },
                };
            },
            None => {},
        }
        i += 1;
    }
    assert(dates@.take(dates@.len() as int) =~= dates@);
    proof {
        lemma_date_span_valid(dates@);
    }
    match span {
        None => None,
        Some((oldest, newest)) => {
            let first = format_date(oldest, "%Y");
            proof {
                reveal_strlit("%Y");
                if 0 <= oldest.year <= 9999 {
                    assert(first@.len() == 4);
                    assert(crate::entry_list::is_digit(first@[0])) by {
                        assert(oldest.year / 1000 < 10);
                    }
                }
            }
            let last = format_date(newest, "%Y");
            if first == last {
                Some(first)
            } else {
                let ghost head = first@;
                let mut joined = first;
                joined.append("-");
                joined.append(last.as_str());
                assert(joined@[0] == head[0]);
                Some(joined)
            }
        },
    }
}

/// What the journal stats preview shows.
#[derive(Debug)]
pub struct JournalStats {
    pub name: String,
    pub entry_count: usize,
    pub active_days: usize,
    pub year_range: String,
}

/// The stats of the selected journal from its entries' group dates, or
/// `None` without a selected journal. A journal without dated entries shows
/// `No dated entries` for its years.
pub fn journal_stats(selected: Option<&str>, dates: &Vec<Option<CivilDate>>) -> (stats: Option<JournalStats>)
    requires
        all_valid(dates@),
    ensures
        match selected {
            None => stats is None,
            Some(name) => stats matches Some(s) && s.name@ == name@ && s.entry_count == dates@.len()
                && s.active_days == date_set(dates@).len() && s.year_range@ == match spec_year_range(dates@) {
                Some(r) => r,
                None => "No dated entries"@,
            } && (s.year_range@ == "No dated entries"@ <==> forall|i: int| 0 <= i < dates@.len() ==> #[trigger] dates@[i] is None),
        },
{
    match selected {
        None => None,
        Some(name) => {
            let year_range = match journal_year_range(dates) {
                Some(r) => {
                    proof {
                        reveal_strlit("No dated entries");
                        assert(r@[0] != "No dated entries"@[0]);
                    }
                    r
                },
                None => string_of("No dated entries"),
            };
            proof {
                lemma_span_none_iff_undated(dates@);
            }
            Some(JournalStats {
                name: string_of(name),
                entry_count: dates.len(),
                active_days: active_day_count(dates),
                year_range,
            })
        },
    }
}

/// A `width` by `height` rect centred in `area`, each side capped at the
/// area's.
pub open spec fn spec_centered_fixed(area: Rect, width: int, height: int) -> Rect {
    let w = if width < area.width { width } else { area.width as int };
    let h = if height < area.height { height } else { area.height as int };
    Rect {
        x: (area.x + (area.width - w) / 2) as u16,
        y: (area.y + (area.height - h) / 2) as u16,
        width: w as u16,
        height: h as u16,
    }
}

/// Centre a `desired_width` by `desired_height` rect in `area`.
pub fn centered_fixed_rect(area: Rect, desired_width: u16, desired_height: u16) -> (rect: Rect)
    requires
        area.x + (area.width - spec_centered_fixed(area, desired_width as int, desired_height as int).width) / 2
            <= u16::MAX,
        area.y + (area.height - spec_centered_fixed(area, desired_width as int, desired_height as int).height)
            / 2 <= u16::MAX,
    ensures
        rect == spec_centered_fixed(area, desired_width as int, desired_height as int),
{
    let width = if desired_width < area.width { desired_width } else { area.width };
    let height = if desired_height < area.height { desired_height } else { area.height };
    Rect {
        x: area.x + (area.width - width) / 2,
        y: area.y + (area.height - height) / 2,
        width,
        height,
    }
}


/// A journal never has more active days than entries.
pub proof fn lemma_active_days_at_most_entries(dates: Seq<Option<CivilDate>>)
    ensures
        date_set(dates).len() <= dates.len(),
    decreases dates.len(),
{
    if dates.len() > 0 {
        lemma_active_days_at_most_entries(dates.drop_last());
        lemma_date_set_finite(dates.drop_last());
    }
}


/// Where the stats preview's cards sit: the journal's identity card on top,
/// the entries and days cards side by side below it.
#[derive(Clone, Copy, Debug, PartialEq, Eq)]
pub struct StatsLayout {
    pub identity: Rect,
    pub entries: Rect,
    pub days: Rect,
}

/// The bands of the stats content: the identity card, no gap, the metrics.
pub open spec fn stats_band_rules() -> Seq<SizeRule> {
    seq![SizeRule::Length(6), SizeRule::Length(0), SizeRule::Length(6)]
}

/// The metrics row: two halves with a one-column gap.
pub open spec fn metric_column_rules() -> Seq<SizeRule> {
    seq![SizeRule::Percentage(50), SizeRule::Length(1), SizeRule::Percentage(50)]
}

/// The metrics band under the identity card, when both fit the content.
pub open spec fn metrics_band(content: Rect) -> Rect {
    Rect { y: (content.y + 6) as u16, height: 6, ..content }
}

/// The preview's cards for any outcome of the layout solver: a 60 by 14
/// block centred in `area`; the identity card its top six rows and the
/// metrics band the six after them (exactly so when twelve rows fit); the
/// two metric cards halves of that band (where the solver puts the halves'
/// edges is left to it).
pub open spec fn stats_layout_of(area: Rect, band: Rect, layout: StatsLayout) -> bool {
    let content = spec_centered_fixed(area, 60, 14);
    &&& part_of(layout.identity, content, Axis::Vertical)
    &&& part_of(band, content, Axis::Vertical)
    &&& 12 <= span_on(content, Axis::Vertical) ==> layout.identity == (Rect { height: 6, ..content }) && band
        == metrics_band(content)
    &&& part_of(layout.entries, band, Axis::Horizontal)
    &&& part_of(layout.days, band, Axis::Horizontal)
}

/// The stats preview's card rects in the panel's inner `area`.
pub fn centered_stats_layout(area: Rect) -> (layout: StatsLayout)
    requires
        area.x + (area.width - spec_centered_fixed(area, 60, 14).width) / 2 <= u16::MAX,
        area.y + (area.height - spec_centered_fixed(area, 60, 14).height) / 2 <= u16::MAX,
    ensures
        exists|band: Rect| #[trigger] stats_layout_of(area, band, layout),
{
    let content = centered_fixed_rect(area, 60, 14);
    let mut band_rules: Vec<SizeRule> = Vec::new();
    band_rules.push(SizeRule::Length(6));
    band_rules.push(SizeRule::Length(0));
    band_rules.push(SizeRule::Length(6));
    assert(band_rules@ =~= stats_band_rules());
    let bands = split_area(content, Axis::Vertical, Packing::Start, &band_rules);
    let mut column_rules: Vec<SizeRule> = Vec::new();
    column_rules.push(SizeRule::Percentage(50));
    column_rules.push(SizeRule::Length(1));
    column_rules.push(SizeRule::Percentage(50));
    assert(column_rules@ =~= metric_column_rules());
    let metrics = split_area(bands[2], Axis::Horizontal, Packing::Start, &column_rules);
    proof {
        let span = span_on(content, Axis::Vertical);
        let r = band_rules@;
        reveal_with_fuel(crate::split::lengths_upto, 4);
        reveal_with_fuel(crate::split::plain_start, 4);
        if 12 <= span {
            assert(crate::split::lengths_upto(r, 3) == 12);
            assert(plain_fit(r, span));
            assert(crate::split::plain_start(r, span, 2) == 6);
            assert(crate::split::plain_start(r, span, 0) == 0);
        }
    }
    let layout = StatsLayout { identity: bands[0], entries: metrics[0], days: metrics[2] };
    assert(stats_layout_of(area, bands@[2], layout));
    layout
}

} // verus!
