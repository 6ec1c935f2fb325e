use notema_tui::md_rows::{grid_row_lines, stacked_table_lines, CellLine, StackedLine};
use notema_tui::md_table::ColumnAlign;
use notema_tui::reflow::StyleRun;

const PLAIN: usize = 0;
const MUTED: usize = 9;

fn run(content: &str, style: usize) -> StyleRun {
    StyleRun { style, content: content.to_string() }
}

fn view(runs: &[StyleRun]) -> Vec<(usize, String)> {
    runs.iter().map(|r| (r.style, r.content.clone())).collect()
}

fn cell(line: &CellLine) -> (usize, String, usize) {
    (line.left, line.runs.iter().map(|r| r.content.as_str()).collect(), line.right)
}

#[test]
fn grid_cells_wrap_and_pad_to_their_columns() {
    let row = vec![vec![run("ab cd", PLAIN)], vec![run("x", PLAIN)]];
    let lines = grid_row_lines(&row, &vec![3, 4], &vec![ColumnAlign::Right, ColumnAlign::Center]);

    assert_eq!(lines.len(), 2);
    assert_eq!(lines[0].iter().map(cell).collect::<Vec<_>>(), [(1, "ab".to_string(), 0), (1, "x".to_string(), 2)]);
    assert_eq!(lines[1].iter().map(cell).collect::<Vec<_>>(), [(1, "cd".to_string(), 0), (2, String::new(), 2)]);
}

#[test]
fn a_short_row_gets_empty_cells_and_unaligned_columns_pad_right() {
    let row = vec![vec![run("hi", PLAIN)]];
    let lines = grid_row_lines(&row, &vec![4, 2], &vec![]);

    assert_eq!(lines.len(), 1);
    assert_eq!(lines[0].iter().map(cell).collect::<Vec<_>>(), [(0, "hi".to_string(), 2), (0, String::new(), 2)]);
}

#[test]
fn overfull_cell_lines_get_no_padding() {
    let row = vec![vec![run("abcdef", PLAIN)]];
    let lines = grid_row_lines(&row, &vec![3], &vec![ColumnAlign::Left]);

    assert_eq!(lines.iter().map(|l| cell(&l[0])).collect::<Vec<_>>(), [(0, "abc".to_string(), 0), (0, "def".to_string(), 0)]);
}

#[test]
fn stacked_rows_pair_each_cell_with_its_header() {
    let rows = vec![
        vec![vec![run("Name", PLAIN)], vec![run("Age", PLAIN)]],
        vec![vec![run("Ann", PLAIN)], vec![run("3", PLAIN)]],
        vec![vec![run("Bo", PLAIN)]],
    ];
    let lines = stacked_table_lines(&rows, MUTED);

    let shown: Vec<Option<Vec<(usize, String)>>> = lines
        .iter()
        .map(|line| match line {
            StackedLine::Blank => None,
            StackedLine::Text(runs) => Some(view(runs)),
        })
        .collect();
    let pair = |h: &str, v: &str| Some(vec![(PLAIN, h.to_string()), (MUTED, ": ".to_string()), (PLAIN, v.to_string())]);
    assert_eq!(shown, vec![pair("Name", "Ann"), pair("Age", "3"), None, pair("Name", "Bo")]);
}

#[test]
fn a_cell_under_an_empty_header_stands_alone() {
    let rows = vec![vec![vec![], vec![run("B", PLAIN)]], vec![vec![run("a", PLAIN)], vec![run("b", PLAIN)], vec![run("c", PLAIN)]]];
    let lines = stacked_table_lines(&rows, MUTED);

    let texts: Vec<String> = lines
        .iter()
        .map(|line| match line {
            StackedLine::Blank => "<blank>".to_string(),
            StackedLine::Text(runs) => runs.iter().map(|r| r.content.as_str()).collect(),
        })
        .collect();
    assert_eq!(texts, ["a", "B: b", "c"]);
}

#[test]
fn a_table_with_only_a_header_stacks_to_nothing() {
    let rows = vec![vec![vec![run("Name", PLAIN)]]];
    assert!(stacked_table_lines(&rows, MUTED).is_empty());
    assert!(stacked_table_lines(&vec![], MUTED).is_empty());
}
