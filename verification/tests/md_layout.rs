use respondami::blocks::{ListItem, TaskListItem};
use respondami::md_layout::{
    code_block_lines, list_item_render_height, list_item_text_height, list_placements, rule_text,
    task_list_placements, ItemPlacement,
};
use respondami::widgets::Rect;

fn rect(width: u16, height: u16) -> Rect {
    Rect { x: 0, y: 0, width, height }
}

fn item(text: &str, children: Vec<ListItem>) -> ListItem {
    ListItem { spans: vec![], text: vec![text.to_string()], children }
}

fn task(checked: bool, text: &str) -> TaskListItem {
    TaskListItem { spans: vec![], checked, text: vec![text.to_string()] }
}

fn shown(placements: &[ItemPlacement]) -> String {
    placements.iter().flat_map(|p| p.lines.iter().cloned()).collect::<Vec<_>>().join("\n")
}

// ─── Lists ───

#[test]
fn render_unordered_list() {
    let items = vec![item("item 1", vec![]), item("item 2", vec![])];
    let got = shown(&list_placements(&items, 1, false, rect(20, 10)));
    assert!(got.contains("item 1"));
    assert!(got.contains("item 2"));
    assert!(got.contains('•'), "Should have bullet");
}

#[test]
fn render_unordered_empty_items() {
    let items: Vec<ListItem> = vec![];
    assert!(list_placements(&items, 1, false, rect(20, 10)).is_empty());
}

#[test]
fn render_ordered_list() {
    let items = vec![item("first", vec![]), item("second", vec![])];
    let got = shown(&list_placements(&items, 1, true, rect(20, 10)));
    assert!(got.contains("1."));
    assert!(got.contains("2."));
}

#[test]
fn list_render_ordered_list_custom_start() {
    let items = vec![item("three", vec![]), item("four", vec![])];
    let got = shown(&list_placements(&items, 3, true, rect(20, 10)));
    assert!(got.contains("3."));
    assert!(got.contains("4."));
}

#[test]
fn render_nested_list() {
    let items = vec![item("parent", vec![item("child A", vec![]), item("child B", vec![])])];
    let got = shown(&list_placements(&items, 1, false, rect(30, 10)));
    assert!(got.contains("parent"));
    assert!(got.contains("child A"));
    assert!(got.contains("child B"));
}

#[test]
fn render_deeply_nested_list() {
    let items = vec![item("level 1", vec![item("level 2", vec![item("level 3", vec![])])])];
    let got = shown(&list_placements(&items, 1, false, rect(40, 10)));
    assert!(got.contains("level 1"));
    assert!(got.contains("level 2"));
    assert!(got.contains("level 3"));
}

#[test]
fn list_render_zero_area() {
    let items = vec![item("item", vec![])];
    assert!(list_placements(&items, 1, false, rect(0, 0)).is_empty());
}

#[test]
fn list_render_item_with_empty_text() {
    let items = vec![ListItem { spans: vec![], text: vec![], children: vec![] }];
    let got = shown(&list_placements(&items, 1, false, rect(20, 5)));
    assert!(got.contains('•'));
}

#[test]
fn list_render_clipped_area() {
    let items = vec![item("item 1", vec![]), item("item 2", vec![]), item("item 3", vec![])];
    let placed = list_placements(&items, 1, false, rect(20, 2));
    assert_eq!(placed.len(), 1);
    assert_eq!(placed[0].height, 2);
}

#[test]
fn list_item_text_height_empty() {
    let it = ListItem { spans: vec![], text: vec![], children: vec![] };
    assert_eq!(list_item_text_height(&it, 40), 1);
}

#[test]
fn list_item_text_height_single_line() {
    assert_eq!(list_item_text_height(&item("short", vec![]), 40), 2);
}

#[test]
fn list_item_text_height_wraps() {
    let h = list_item_text_height(&item(&"a".repeat(80), vec![]), 40);
    assert!(h >= 2, "Long text should wrap: height={}", h);
}

#[test]
fn list_item_text_height_zero_width() {
    assert_eq!(list_item_text_height(&item("text", vec![]), 0), 1);
}

// Own list tests.

#[test]
fn list_placements_exact_rows_bullets_and_indent() {
    let items = vec![
        item("parent", vec![item("child", vec![])]),
        ListItem { spans: vec![], text: vec!["one".to_string(), "two".to_string()], children: vec![] },
    ];
    let placed = list_placements(&items, 9, true, Rect { x: 3, y: 5, width: 20, height: 10 });
    assert_eq!(placed.len(), 3);
    assert_eq!((placed[0].y, placed[0].height), (5, 2));
    assert_eq!(placed[0].lines, vec!["9. parent".to_string()]);
    assert_eq!((placed[1].y, placed[1].height), (7, 2));
    assert_eq!(placed[1].lines, vec!["  • child".to_string()]);
    assert_eq!((placed[2].y, placed[2].height), (9, 3));
    assert_eq!(placed[2].lines, vec!["10. one".to_string(), "  two".to_string()]);
}

#[test]
fn list_item_render_height_counts_children_at_same_width() {
    let it = item("parent", vec![item("child", vec![]), ListItem { spans: vec![], text: vec![], children: vec![] }]);
    assert_eq!(list_item_render_height(&it, 10), 2 + 2 + 1);
}

// ─── Task lists ───

#[test]
fn render_checked_item() {
    let got = shown(&task_list_placements(&vec![task(true, "done")], rect(20, 5)));
    assert!(got.contains("☑"), "Should have checked box");
    assert!(got.contains("done"));
}

#[test]
fn render_unchecked_item() {
    let got = shown(&task_list_placements(&vec![task(false, "todo")], rect(20, 5)));
    assert!(got.contains("☐"), "Should have unchecked box");
    assert!(got.contains("todo"));
}

#[test]
fn render_mixed_checked_unchecked() {
    let items = vec![task(true, "done"), task(false, "todo")];
    let got = shown(&task_list_placements(&items, rect(20, 10)));
    assert!(got.contains("☑"));
    assert!(got.contains("☐"));
}

#[test]
fn render_empty_items() {
    let items: Vec<TaskListItem> = vec![];
    assert!(task_list_placements(&items, rect(20, 5)).is_empty());
}

#[test]
fn task_list_render_item_with_empty_text() {
    let items = vec![TaskListItem { spans: vec![], checked: true, text: vec![] }];
    let got = shown(&task_list_placements(&items, rect(20, 5)));
    assert!(got.contains("☑"), "Should render checkbox even with empty text");
}

#[test]
fn render_wrapped_text() {
    let items = vec![task(false, &"a".repeat(80))];
    let placed = task_list_placements(&items, rect(20, 10));
    assert_eq!(placed.len(), 1);
    assert_eq!(placed[0].height, 6);
}

#[test]
fn task_list_render_zero_area() {
    assert!(task_list_placements(&vec![task(false, "item")], rect(0, 0)).is_empty());
}

#[test]
fn task_list_render_clipped_area() {
    let items = vec![task(false, "item 1"), task(false, "item 2"), task(false, "item 3")];
    let placed = task_list_placements(&items, rect(20, 2));
    assert_eq!(placed.len(), 1);
    assert_eq!(placed[0].lines, vec!["☐ item 1".to_string()]);
}

// ─── Code blocks ───

#[test]
fn render_with_language() {
    let got = code_block_lines("rust", "fn main() {}").join("\n");
    assert!(got.contains("rust"), "Should contain language title");
    assert!(got.contains("fn main"), "Should contain code");
}

#[test]
fn render_empty_language_shows_code() {
    let got = code_block_lines("", "let x = 1;").join("\n");
    assert!(got.contains("Code"), "Should show 'Code' for empty language");
}

#[test]
fn render_multiline_content() {
    let got = code_block_lines("python", "def foo():\n    return 1").join("\n");
    assert!(got.contains("def foo"));
    assert!(got.contains("return 1"));
}

#[test]
fn render_empty_content() {
    let got = code_block_lines("txt", "").join("\n");
    assert!(got.contains("txt"), "Should still show language title");
}

#[test]
fn render_small_area() {
    assert_eq!(code_block_lines("rust", "code"), vec![" rust ".to_string(), "code".to_string()]);
}

#[test]
fn code_render_zero_area() {
    assert_eq!(code_block_lines("rust", "code").len(), 2);
}

// ─── Rules ───

#[test]
fn render_rule_width_10() {
    assert_eq!(rule_text(10).chars().filter(|c| *c == '─').count(), 5);
}

#[test]
fn render_rule_width_1() {
    assert_eq!(rule_text(1), "─");
}

#[test]
fn render_rule_width_80() {
    assert_eq!(rule_text(80).chars().count(), 40);
}

#[test]
fn placements_stay_inside_the_area_in_order() {
    let items = vec![
        item("parent", vec![item("child one", vec![]), item("child two", vec![])]),
        item("next", vec![]),
    ];
    let area = Rect { x: 0, y: 2, width: 12, height: 5 };
    let placed = list_placements(&items, 1, false, area);
    assert_eq!(placed.iter().map(|p| (p.y, p.height)).collect::<Vec<_>>(), vec![(2, 2), (4, 3)]);
    let mut bottom = area.y;
    for p in &placed {
        assert!(p.height > 0);
        assert!(p.y >= bottom);
        bottom = p.y + p.height;
    }
    assert!(bottom <= area.y + area.height);
    let tasks = vec![task(true, "a"), task(false, "b"), task(true, "c")];
    let placed = task_list_placements(&tasks, Rect { x: 0, y: 1, width: 10, height: 5 });
    assert_eq!(placed.iter().map(|p| (p.y, p.height)).collect::<Vec<_>>(), vec![(1, 2), (3, 2), (5, 1)]);
}
