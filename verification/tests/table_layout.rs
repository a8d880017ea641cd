use respondami::table_layout::{table_lines, TableLine};
use respondami::widgets::Rect;

fn area(width: u16, height: u16) -> Rect {
    Rect { x: 0, y: 0, width, height }
}

fn s(v: &[&str]) -> Vec<String> {
    v.iter().map(|x| x.to_string()).collect()
}

fn rule(line: &TableLine) -> &str {
    match line {
        TableLine::Rule(r) => r,
        _ => panic!("expected a rule"),
    }
}

fn cells(line: &TableLine) -> (&Vec<String>, bool) {
    match line {
        TableLine::Cells { cells, header } => (cells, *header),
        _ => panic!("expected cells"),
    }
}

#[test]
fn simple_table_lines() {
    let lines = table_lines(&s(&["A", "B"]), &vec![s(&["1", "2"])], area(30, 10)).unwrap();
    assert_eq!(lines.len(), 5);
    let top = rule(&lines[0]);
    assert!(top.starts_with("┌─") && top.ends_with("─┐") && top.contains('┬'));
    let (head, is_header) = cells(&lines[1]);
    assert!(is_header);
    assert_eq!(head[0].trim_end(), "A");
    assert_eq!(head[1].trim_end(), "B");
    assert_eq!(head[0].chars().count() + head[1].chars().count(), 22);
    assert!(rule(&lines[2]).starts_with("├─"));
    let (data, is_header) = cells(&lines[3]);
    assert!(!is_header);
    assert_eq!(data[0].trim_end(), "1");
    assert!(rule(&lines[4]).starts_with("└─"));
    assert_eq!(top.chars().count(), rule(&lines[4]).chars().count());
    assert_eq!(top.chars().count(), 1 + head[0].chars().count() + 3 + head[1].chars().count() + 3);
}

#[test]
fn rows_are_separated() {
    let rows = vec![s(&["1", "2"]), s(&["3", "4"])];
    let lines = table_lines(&s(&["A", "B"]), &rows, area(30, 20)).unwrap();
    assert_eq!(lines.len(), 7);
    assert!(rule(&lines[4]).starts_with("├─"));
    assert_eq!(cells(&lines[5]).0[0].trim_end(), "3");
}

#[test]
fn narrow_area_falls_back_to_joined_headers() {
    let lines = table_lines(&s(&["A", "B"]), &vec![s(&["1", "2"])], area(8, 10)).unwrap();
    assert_eq!(lines.len(), 1);
    assert!(matches!(&lines[0], TableLine::Fallback(t) if t == "A | B"));
}

#[test]
fn lines_are_cut_to_the_height() {
    let lines = table_lines(&s(&["A", "B"]), &vec![s(&["1", "2"])], area(30, 3)).unwrap();
    assert_eq!(lines.len(), 3);
}

#[test]
fn long_cells_wrap_onto_more_lines() {
    let rows = vec![s(&["Very long cell text", "x"])];
    let lines = table_lines(&s(&["Name", "Value"]), &rows, area(20, 20)).unwrap();
    let data: Vec<&TableLine> = lines.iter().filter(|l| matches!(l, TableLine::Cells { header: false, .. })).collect();
    assert!(data.len() >= 2);
    let first = cells(data[0]).0[0].trim_end().to_string();
    assert!("Very long cell text".starts_with(&first));
}

#[test]
fn nothing_to_draw() {
    assert!(table_lines(&Vec::new(), &Vec::new(), area(30, 10)).is_none());
    assert!(table_lines(&s(&["A"]), &Vec::new(), area(3, 10)).is_none());
    let lines = table_lines(&s(&["A", "B"]), &Vec::new(), area(30, 10)).unwrap();
    assert_eq!(lines.len(), 4);
}

#[test]
fn table_rules_leave_one_column_per_gap() {
    let lines = table_lines(&s(&["A", "B", "C"]), &Vec::new(), area(40, 10)).unwrap();
    assert_eq!(rule(&lines[0]).chars().count(), 38);
    let lines = table_lines(&s(&["A", "B"]), &Vec::new(), area(30, 10)).unwrap();
    assert_eq!(rule(&lines[0]).chars().count(), 29);
}

fn shown(lines: &Option<Vec<TableLine>>) -> String {
    lines
        .iter()
        .flatten()
        .map(|l| match l {
            TableLine::Rule(r) => r.clone(),
            TableLine::Cells { cells, .. } => format!("│ {} │", cells.join(" │ ")),
            TableLine::Fallback(t) => t.clone(),
        })
        .collect::<Vec<_>>()
        .join("\n")
}

#[test]
fn render_simple_table() {
    let got = shown(&table_lines(&s(&["A", "B"]), &vec![s(&["1", "2"])], area(20, 10)));
    assert!(got.contains("A"), "Should contain header A");
    assert!(got.contains("B"), "Should contain header B");
    assert!(got.contains("1"), "Should contain data 1");
}

#[test]
fn render_table_with_wrapped_cells() {
    let rows = vec![s(&["Very long cell text", "x"])];
    let got = shown(&table_lines(&s(&["Name", "Value"]), &rows, area(30, 10)));
    assert!(got.contains("Very long"));
}

#[test]
fn render_table_narrow_area() {
    assert!(table_lines(&s(&["A", "B"]), &vec![s(&["1", "2"])], area(3, 5)).is_none());
}

#[test]
fn render_table_single_column() {
    let got = shown(&table_lines(&s(&["Col"]), &vec![s(&["val"])], area(15, 10)));
    assert!(got.contains("Col"));
    assert!(got.contains("val"));
}

#[test]
fn render_table_multiple_rows_with_separators() {
    let rows = vec![s(&["1", "2"]), s(&["3", "4"])];
    let got = shown(&table_lines(&s(&["A", "B"]), &rows, area(20, 15)));
    assert!(got.contains('├'), "Should have inter-row separator");
}

#[test]
fn render_table_no_rows() {
    let got = shown(&table_lines(&s(&["A", "B"]), &vec![], area(20, 10)));
    assert!(got.contains("A"));
    assert!(got.contains('┌'), "Should have top border");
    assert!(got.contains('└'), "Should have bottom border");
}

#[test]
fn render_table_zero_area() {
    assert!(table_lines(&s(&["A"]), &vec![], area(0, 0)).is_none());
}

#[test]
fn render_table_border_characters() {
    let got = shown(&table_lines(&s(&["A"]), &vec![s(&["1"])], area(15, 10)));
    assert!(got.contains('┌'), "Top-left corner");
    assert!(got.contains('┐'), "Top-right corner");
    assert!(got.contains('└'), "Bottom-left corner");
    assert!(got.contains('┘'), "Bottom-right corner");
    assert!(got.contains('│'), "Vertical border");
    assert!(got.contains('─'), "Horizontal border");
}
