//! Emitting a logical line of rendered markdown: wrapped to the room the open
//! block containers leave, each display line led by their prefix (and a
//! code block's rail), with a click region recorded for every piece of an
//! openable link.
use vstd::prelude::*;
use crate::markdown::{is_openable_link, openable_link};
use crate::md_rows::{copy_runs, runs_width, width_of_runs};
use crate::md_text::{Container, ContainerView, ListState, container_after, container_view, containers_view};
use crate::reflow::{
    RichSpan, StyleRun, StyledChar, link_regions, runs_view, sat_add, span_chars, style_runs,
    wrap_rich, wrapped_chars,
};
use crate::text::{display_width, repeat_char, repeat_string, str_width};

verus! {

/// The styles of a container prefix's pieces: a quote's rail, an item's
/// marker, and the blank indent under a marker.
#[derive(Clone, Copy, Debug, PartialEq, Eq, Structural)]
pub struct PrefixStyles {
    pub quote: usize,
    pub marker: usize,
    pub plain: usize,
}

/// The runs one container adds to a line's prefix: a quote's rail, and
/// inside an open list item its marker (on the item's first line, when
/// markers are drawn) or a blank indent as wide as the marker.
pub open spec fn container_runs(c: ContainerView, markers: bool, styles: PrefixStyles) -> Seq<(usize, Seq<char>)> {
    match c {
        ContainerView::Quote => seq![(styles.quote, "│ "@)],
        ContainerView::List { marker, first_line, in_item, .. } => if !in_item {
            seq![]
        } else if markers && first_line {
            seq![(styles.marker, marker)]
        } else {
            seq![(styles.plain, repeat_char(' ', display_width(marker)))]
        },
    }
}

/// The prefix runs the first `k` containers give a line, outermost first.
pub open spec fn prefix_runs_upto(cs: Seq<ContainerView>, markers: bool, styles: PrefixStyles, k: int) -> Seq<(usize, Seq<char>)>
    decreases k,
{
    if k <= 0 {
        seq![]
    } else {
        prefix_runs_upto(cs, markers, styles, k - 1) + container_runs(cs[k - 1], markers, styles)
    }
}

/// The prefix of a line inside the open containers as styled runs,
/// outermost first; with `markers`, each open item's marker is used up on
/// the line it starts.
pub fn prefix_runs(containers: &mut Vec<Container>, markers: bool, styles: PrefixStyles) -> (runs: Vec<StyleRun>)
    ensures
        runs_view(runs@) == prefix_runs_upto(containers_view(old(containers)@), markers, styles, old(containers)@.len() as int),
        containers_view(final(containers)@) == containers_view(old(containers)@).map_values(
            |c: ContainerView| container_after(c, markers),
        ),
{
    let ghost start = containers_view(containers@);
    let mut runs: Vec<StyleRun> = Vec::new();
    let mut k: usize = 0;
    while k < containers.len()
        invariant
            k <= containers@.len(),
            start.len() == containers@.len(),
            runs_view(runs@) == prefix_runs_upto(start, markers, styles, k as int),
            forall|i: int| 0 <= i < k ==> #[trigger] containers_view(containers@)[i] == container_after(start[i], markers),
            forall|i: int| k <= i < containers@.len() ==> #[trigger] containers_view(containers@)[i] == start[i],
        decreases containers@.len() - k,
    {
        let ghost before = containers_view(containers@);
        let ghost vec_before = containers@;
        assert(before[k as int] == container_view(vec_before[k as int]));
        let taken = containers.remove(k);
        assert(container_view(taken) == start[k as int]);
        let ghost runs_before = runs_view(runs@);
        let updated = match taken {
            Container::Quote => {
                runs.push(StyleRun { style: styles.quote, content: String::from_str("│ ") });
                Container::Quote
            },
            Container::List(list) => {
                if list.in_item {
                    if markers && list.first_line {
                        runs.push(StyleRun { style: styles.marker, content: list.marker.clone() });
                        Container::List(ListState { first_line: false, ..list })
                    } else {
                        let spaces = repeat_string(' ', str_width(list.marker.as_str()));
                        runs.push(StyleRun { style: styles.plain, content: spaces });
                        Container::List(list)
                    }
                } else {
                    Container::List(list)
                }
            },
        };
        proof {
            reveal_strlit("│ ");
            assert(runs_view(runs@) =~= runs_before + container_runs(start[k as int], markers, styles));
            assert(container_view(updated) == container_after(start[k as int], markers));
        }
        containers.insert(k, updated);
        proof {
            assert(containers_view(containers@) =~= before.update(k as int, container_after(start[k as int], markers)));
        }
        k += 1;
        assert(runs_view(runs@) =~= prefix_runs_upto(start, markers, styles, k as int));
    }
    assert(containers_view(containers@) =~= start.map_values(|c: ContainerView| container_after(c, markers)));
    runs
}

/// A click region of a link on a display line: the line, the columns it
/// spans (`start` inclusive, `end` exclusive), the link's target, and the
/// link it belongs to (its pieces on several lines share it).
#[derive(Debug)]
pub struct LinkHit {
    pub line: usize,
    pub start: usize,
    pub end: usize,
    pub target: String,
    pub group: usize,
}

/// A click region as a plain value.
pub open spec fn hit_view(hit: LinkHit) -> (int, int, int, Seq<char>, int) {
    (hit.line as int, hit.start as int, hit.end as int, hit.target@, hit.group as int)
}

pub open spec fn hits_view(hits: Seq<LinkHit>) -> Seq<(int, int, int, Seq<char>, int)> {
    hits.map_values(|h: LinkHit| hit_view(h))
}

/// Lines of style runs as plain values.
pub open spec fn run_lines_view(lines: Seq<Vec<StyleRun>>) -> Seq<Seq<(usize, Seq<char>)>> {
    lines.map_values(|line: Vec<StyleRun>| runs_view(line@))
}

/// The columns a prefix takes, capped at `usize::MAX`.
pub open spec fn capped_width(runs: Seq<(usize, Seq<char>)>) -> int {
    if runs_width(runs) > usize::MAX {
        usize::MAX as int
    } else {
        runs_width(runs)
    }
}

/// The click regions the first `k` link pieces of a display line give: one
/// for each piece whose link has an openable target, its columns shifted by
/// the line's prefix width.
pub open spec fn line_hits(
    regions: Seq<(usize, usize, usize)>,
    prefix_width: int,
    line: int,
    targets: Seq<String>,
    k: int,
) -> Seq<(int, int, int, Seq<char>, int)>
    decreases k,
{
    if k <= 0 {
        seq![]
    } else {
        let before = line_hits(regions, prefix_width, line, targets, k - 1);
        let (start, end, id) = regions[k - 1];
        if id < targets.len() && openable_link(targets[id as int]@) {
            before.push((line, sat_add(prefix_width, start as int), sat_add(prefix_width, end as int), targets[id as int]@, id as int))
        } else {
            before
        }
    }
}

/// The prefix of display line `i` of an emitted line: the first line's, or
/// the one every later line gets.
pub open spec fn prefix_at(first: Seq<(usize, Seq<char>)>, later: Seq<(usize, Seq<char>)>, i: int) -> Seq<(usize, Seq<char>)> {
    if i == 0 { first } else { later }
}

/// The display lines of an emitted line: each wrapped line's runs after its
/// prefix.
pub open spec fn emitted_lines(
    first: Seq<(usize, Seq<char>)>,
    later: Seq<(usize, Seq<char>)>,
    wrapped: Seq<Seq<StyledChar>>,
) -> Seq<Seq<(usize, Seq<char>)>> {
    Seq::new(wrapped.len(), |i: int| prefix_at(first, later, i) + style_runs(wrapped[i]))
}

/// The click regions of the first `n` display lines of an emitted line, the
/// first of them being display line `base`.
pub open spec fn emitted_hits(
    first: Seq<(usize, Seq<char>)>,
    later: Seq<(usize, Seq<char>)>,
    wrapped: Seq<Seq<StyledChar>>,
    base: int,
    targets: Seq<String>,
    n: int,
) -> Seq<(int, int, int, Seq<char>, int)>
    decreases n,
{
    if n <= 0 {
        seq![]
    } else {
        let regions = link_regions(wrapped[n - 1]);
        emitted_hits(first, later, wrapped, base, targets, n - 1) + line_hits(
            regions,
            capped_width(prefix_at(first, later, n - 1)),
            base + n - 1,
            targets,
            regions.len() as int,
        )
    }
}

/// The room a line has beside a prefix of `prefix_width` columns: at least
/// one column.
pub open spec fn room_beside(width: usize, prefix_width: int) -> int {
    if width > prefix_width + 1 { width - prefix_width } else { 1 }
}

/// Emit a logical line: its spans wrapped (hard, anywhere, or soft, at
/// whitespace) to the room left beside the first line's prefix, each display
/// line appended to `lines` after its prefix. The first display line's
/// prefix uses up the open items' markers; every later one gets the blank
/// indent; `rail` follows the prefix on every line. Each piece of a link
/// whose target is openable is recorded in `hits`, its columns counted from
/// the line's start. A link id with no target records nothing.
pub fn emit_wrapped_line(
    containers: &mut Vec<Container>,
    styles: PrefixStyles,
    width: usize,
    spans: &Vec<RichSpan>,
    rail: &Vec<StyleRun>,
    hard_wrap: bool,
    link_targets: &Vec<String>,
    lines: &mut Vec<Vec<StyleRun>>,
    hits: &mut Vec<LinkHit>,
)
    ensures
        ({
            let cs = containers_view(old(containers)@);
            let after = cs.map_values(|c: ContainerView| container_after(c, true));
            let first = prefix_runs_upto(cs, true, styles, cs.len() as int) + runs_view(rail@);
            let later = prefix_runs_upto(after, false, styles, after.len() as int) + runs_view(rail@);
            let wrapped = wrapped_chars(span_chars(spans@), room_beside(width, capped_width(first)), hard_wrap);
            &&& containers_view(final(containers)@) == after
            &&& run_lines_view(final(lines)@) == run_lines_view(old(lines)@) + emitted_lines(first, later, wrapped)
            &&& hits_view(final(hits)@) == hits_view(old(hits)@) + emitted_hits(
                first,
                later,
                wrapped,
                old(lines)@.len() as int,
                link_targets@,
                wrapped.len() as int,
            )
        }),
{
    let ghost cs = containers_view(containers@);
    let ghost lines_before = run_lines_view(lines@);
    let ghost hits_before = hits_view(hits@);
    let ghost base = lines@.len() as int;
    let mut first = prefix_runs(containers, true, styles);
    let mut rail_copy = copy_runs(rail);
    let ghost first_prefix = runs_view(first@);
    first.append(&mut rail_copy);
    assert(runs_view(first@) =~= first_prefix + runs_view(rail@));
    let ghost first_view = runs_view(first@);
    let ghost after = containers_view(containers@);
    let ghost later_view = prefix_runs_upto(after, false, styles, after.len() as int) + runs_view(rail@);
    let first_width = width_of_runs(&first);
    let room = if width > first_width && width - first_width > 1 { width - first_width } else { 1 };
    let wrapped = wrap_rich(spans, room, hard_wrap);
    let ghost target = wrapped_chars(span_chars(spans@), room as int, hard_wrap);
    let mut index: usize = 0;
    while index < wrapped.len()
        invariant
            index <= wrapped@.len(),
            wrapped@.len() == target.len(),
            forall|i: int| 0 <= i < wrapped@.len() ==> runs_view(#[trigger] wrapped@[i].spans@) == style_runs(target[i]),
            forall|i: int| 0 <= i < wrapped@.len() ==> (#[trigger] wrapped@[i]).links@ == link_regions(target[i]),
            containers_view(containers@) == after,
            later_view == prefix_runs_upto(after, false, styles, after.len() as int) + runs_view(rail@),
            runs_view(first@) == first_view,
            base == lines@.len() - index,
            run_lines_view(lines@) == lines_before + emitted_lines(first_view, later_view, target).take(index as int),
            hits_view(hits@) == hits_before + emitted_hits(first_view, later_view, target, base, link_targets@, index as int),
        decreases wrapped@.len() - index,
    {
        let mut prefix = if index == 0 {
            let copy = copy_runs(&first);
            assert(runs_view(copy@) == prefix_at(first_view, later_view, index as int));
            copy
        } else {
            let mut later = prefix_runs(containers, false, styles);
            proof {
                assert(containers_view(containers@) =~= after);
            }
            let mut more = copy_runs(rail);
            let ghost later_prefix = runs_view(later@);
            later.append(&mut more);
            assert(runs_view(later@) =~= later_prefix + runs_view(rail@));
            assert(later_prefix == prefix_runs_upto(after, false, styles, after.len() as int));
            assert(runs_view(later@) == prefix_at(first_view, later_view, index as int));
            later
        };
        let ghost prefix_view = runs_view(prefix@);
        assert(prefix_view == prefix_at(first_view, later_view, index as int));
        let prefix_width = width_of_runs(&prefix);
        let line_number = lines.len();
        let regions = &wrapped[index].links;
        let ghost hits_here = hits_view(hits@);
        let mut k: usize = 0;
        while k < regions.len()
            invariant
                k <= regions@.len(),
                index < target.len(),
                regions@ == link_regions(target[index as int]),
                prefix_width as int == capped_width(prefix_view),
                line_number as int == base + index,
                hits_view(hits@) == hits_here + line_hits(regions@, prefix_width as int, line_number as int, link_targets@, k as int),
            decreases regions@.len() - k,
        {
            let (start, end, id) = regions[k];
            if id < link_targets.len() && is_openable_link(link_targets[id].as_str()) {
                let hit = LinkHit {
                    line: line_number,
                    start: prefix_width.saturating_add(start),
                    end: prefix_width.saturating_add(end),
                    target: link_targets[id].clone(),
                    group: id,
                };
                let ghost before = hits_view(hits@);
                hits.push(hit);
                assert(hits_view(hits@) =~= before.push(hit_view(hit)));
            }
            k += 1;
        }
        let mut content = copy_runs(&wrapped[index].spans);
        prefix.append(&mut content);
        let ghost line_view = runs_view(prefix@);
        assert(line_view =~= prefix_view + style_runs(target[index as int]));
        let ghost lines_prior = run_lines_view(lines@);
        lines.push(prefix);
        proof {
            assert(run_lines_view(lines@) =~= lines_prior.push(line_view));
            assert(emitted_lines(first_view, later_view, target).take(index + 1) =~= emitted_lines(
                first_view,
                later_view,
                target,
            ).take(index as int).push(line_view));
        }
        index += 1;
    }
    proof {
        assert(emitted_lines(first_view, later_view, target).take(target.len() as int) =~= emitted_lines(
            first_view,
            later_view,
            target,
        ));
    }
}

} // verus!
