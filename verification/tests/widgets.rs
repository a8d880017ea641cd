use respondami::widgets::autocomplete::{AutocompletePopup, PopupRow};
use respondami::widgets::command_palette::{CommandPaletteOverlay, PaletteRow};
use respondami::widgets::header_bar::{count_wrapped_lines, FilledHeaderBar};
use respondami::widgets::panel::{PanelOverlay, PanelRow};
use respondami::widgets::prompt_editor::{EditorLine, PromptEditorOverlay};
use respondami::widgets::Rect;
use unicode_width::UnicodeWidthStr;

fn rect(x: u16, y: u16, width: u16, height: u16) -> Rect {
    Rect { x, y, width, height }
}

// ─── AutocompletePopup ───

#[test]
fn area_empty_items() {
    let popup = AutocompletePopup::new();
    assert!(popup.area(80, 24).is_none());
}

#[test]
fn area_with_items() {
    let popup = AutocompletePopup::new()
        .items(vec!["file1.rs".into(), "file2.rs".into()])
        .anchor_col(10)
        .anchor_row(20);
    let area = popup.area(80, 24);
    assert!(area.is_some());
    let a = area.unwrap();
    assert_eq!(a.x, 10);
    assert_eq!(a.y, 16);
}

#[test]
fn autocomplete_popup_height_minimum() {
    let popup = AutocompletePopup::new();
    assert_eq!(popup.height(), 2);
}

#[test]
fn height_with_items() {
    let popup = AutocompletePopup::new().items(vec!["a".into(), "b".into(), "c".into()]);
    assert_eq!(popup.height(), 5);
}

#[test]
fn height_with_footer() {
    let popup = AutocompletePopup::new()
        .items(vec!["a".into(), "b".into()])
        .footer("footer".to_string());
    assert_eq!(popup.height(), 6);
}

#[test]
fn truncate_front_str_short() {
    let result = AutocompletePopup::truncate_front_str("short", 80);
    assert_eq!(result, "short");
}

#[test]
fn truncate_front_str_long() {
    let result = AutocompletePopup::truncate_front_str("src/components/slider.rs", 15);
    assert!(result.contains("…"));
    assert!(result.ends_with("slider.rs"));
    assert_eq!(result.width(), 15);
}

#[test]
fn truncate_front_str_wide_chars() {
    let result = AutocompletePopup::truncate_front_str("📁 src/main.rs", 12);
    assert!(result.contains("…"));
    assert!(result.width() <= 12);
}

#[test]
fn area_moves_left_to_fit_the_terminal() {
    let popup = AutocompletePopup::new()
        .items(vec!["a_rather_long_file_name.rs".into()])
        .anchor_col(70)
        .anchor_row(10);
    let a = popup.area(80, 24).unwrap();
    assert_eq!(a.width, 28);
    assert_eq!(a.x, 52);
    assert_eq!(a.height, 3);
    assert_eq!(a.y, 7);
}

#[test]
fn area_needs_two_rows_above_the_anchor() {
    let popup = AutocompletePopup::new().items(vec!["x".into()]).anchor_row(1);
    assert!(popup.area(80, 24).is_none());
}

#[test]
fn popup_rows_mark_the_selected_item() {
    let popup = AutocompletePopup::new()
        .items(vec!["file1.rs".into(), "file2.rs".into()])
        .selected(0);
    let rows = popup.rows(rect(0, 0, 15, 4)).unwrap();
    assert_eq!(rows.len(), 2);
    match &rows[0] {
        PopupRow::Item { text, selected } => {
            assert!(*selected);
            assert_eq!(text, "→ file1.rs");
        }
        _ => panic!("expected an item row"),
    }
    match &rows[1] {
        PopupRow::Item { text, selected } => {
            assert!(!*selected);
            assert_eq!(text, "  file2.rs");
        }
        _ => panic!("expected an item row"),
    }
}

#[test]
fn popup_rows_with_footer() {
    let popup = AutocompletePopup::new()
        .items(vec!["file1.rs".into(), "file2.rs".into()])
        .selected(0)
        .footer("toggle hidden".to_string());
    let rows = popup.rows(rect(0, 0, 20, 6)).unwrap();
    assert_eq!(rows.len(), 4);
    assert!(matches!(&rows[2], PopupRow::Divider(d) if d.chars().count() == 18));
    assert!(matches!(&rows[3], PopupRow::Footer(f) if f == "toggle hidden"));
}

#[test]
fn popup_rows_truncate_long_items() {
    let popup = AutocompletePopup::new()
        .items(vec!["src/components/ui/widgets/slider.rs".into()])
        .selected(0)
        .truncate_front(true)
        .truncate_max_width(20);
    let rows = popup.rows(rect(0, 0, 25, 3)).unwrap();
    match &rows[0] {
        PopupRow::Item { text, .. } => {
            assert!(text.starts_with("→ …"), "got {}", text);
            assert!(text.ends_with("slider.rs"));
        }
        _ => panic!("expected an item row"),
    }
}

#[test]
fn popup_rows_scroll_to_the_selection() {
    let items: Vec<String> = (0..10).map(|i| format!("item{}", i)).collect();
    let popup = AutocompletePopup::new().items(items).selected(7);
    let rows = popup.rows(rect(0, 0, 20, 5)).unwrap();
    assert_eq!(rows.len(), 3);
    match &rows[2] {
        PopupRow::Item { text, selected } => {
            assert!(*selected);
            assert_eq!(text, "→ item7");
        }
        _ => panic!("expected an item row"),
    }
}

// ─── CommandPaletteOverlay ───

#[test]
fn command_palette_overlay_height_minimum() {
    let palette = CommandPaletteOverlay::new();
    assert_eq!(palette.height(), 3);
}

#[test]
fn height_with_commands() {
    let palette = CommandPaletteOverlay::new()
        .commands(vec![("cmd1".into(), "desc1".into()), ("cmd2".into(), "desc2".into())]);
    assert_eq!(palette.height(), 5);
}

#[test]
fn palette_rows_start_with_the_input() {
    let palette = CommandPaletteOverlay::new()
        .query("test")
        .commands(vec![("Toggle".into(), "[collapsed → expanded]".into())])
        .selected(0);
    let rows = palette.rows(rect(0, 0, 40, 5)).unwrap();
    assert_eq!(rows.len(), 2);
    assert!(matches!(&rows[0], PaletteRow::Input(s) if s == "> test"));
    match &rows[1] {
        PaletteRow::Command { text, selected } => {
            assert!(*selected);
            assert_eq!(text, "Toggle              [collapsed → expanded]");
        }
        _ => panic!("expected a command row"),
    }
}

#[test]
fn palette_rows_fill_with_blanks() {
    let palette = CommandPaletteOverlay::new().commands(vec![("a".into(), "b".into())]);
    let rows = palette.rows(rect(0, 0, 40, 8)).unwrap();
    assert_eq!(rows.len(), 5);
    assert!(matches!(rows[4], PaletteRow::Blank));
}

#[test]
fn palette_rows_too_small_area() {
    let palette = CommandPaletteOverlay::new();
    assert!(palette.rows(rect(0, 0, 9, 10)).is_none());
    assert!(palette.rows(rect(0, 0, 40, 3)).is_none());
}

// ─── PanelOverlay ───

#[test]
fn panel_overlay_height_minimum() {
    let overlay = PanelOverlay::new(" Test ");
    assert_eq!(overlay.height(), 3);
}

#[test]
fn height_with_content() {
    let overlay = PanelOverlay::new(" Test ").content(vec!["line 1".into(), "line 2".into()]);
    assert_eq!(overlay.height(), 4);
}

#[test]
fn panel_rows_mark_the_selected_line() {
    let overlay = PanelOverlay::new(" List ")
        .content(vec!["item 1".into(), "item 2".into()])
        .selected(1);
    let rows = overlay.rows(rect(0, 0, 10, 4)).unwrap();
    assert_eq!(rows.len(), 2);
    assert!(matches!(&rows[0], PanelRow::Line { selected: false, .. }));
    assert!(matches!(&rows[1], PanelRow::Line { text, selected: true } if text == "item 2"));
}

#[test]
fn panel_rows_fill_with_blanks() {
    let overlay = PanelOverlay::new(" Title ").content(vec!["Content".into()]);
    let rows = overlay.rows(rect(0, 0, 10, 5)).unwrap();
    assert_eq!(rows.len(), 3);
    assert!(matches!(rows[2], PanelRow::Blank));
}

// ─── FilledHeaderBar ───

#[test]
fn height_expanded_empty_content() {
    let widget = FilledHeaderBar::new("Test Header");
    assert_eq!(widget.height(80), 3);
}

#[test]
fn height_collapsed() {
    let widget = FilledHeaderBar::new("Test Header").collapsed(true);
    assert_eq!(widget.height(80), 3);
}

#[test]
fn height_expanded_with_content() {
    let widget = FilledHeaderBar::new("Test Header")
        .content(vec!["line 1".into(), "line 2".into(), "line 3".into()]);
    assert_eq!(widget.height(80), 5);
}

#[test]
fn height_zero_width() {
    let widget = FilledHeaderBar::new("Test Header");
    assert_eq!(widget.height(0), 2);
}

#[test]
fn count_wrapped_lines_wide_chars_at_boundary() {
    assert_eq!(count_wrapped_lines("ab😀cd", 3), 3);
}

#[test]
fn count_wrapped_lines_wide_chars_fit() {
    assert_eq!(count_wrapped_lines("ab😀cd", 6), 1);
}

#[test]
fn count_wrapped_lines_wider_than_line() {
    assert_eq!(count_wrapped_lines("😀", 1), 1);
}

#[test]
fn count_wrapped_lines_box_drawing() {
    assert_eq!(count_wrapped_lines("┌────┐", 3), 2);
}

#[test]
fn height_wide_chars_content() {
    let widget = FilledHeaderBar::new("T").content(vec!["a😀b".into()]);
    assert_eq!(widget.height(4), 5);
}

#[test]
fn height_ceiling_division_vs_actual() {
    let widget = FilledHeaderBar::new("T").content(vec!["a😀b".into()]);
    assert_eq!(widget.height(4), 5);
}

#[test]
fn header_cells_wide_chars_no_overlap() {
    let cells = FilledHeaderBar::new("😀test").header_cells(10);
    assert_eq!(cells[0], (1, '😀'));
    assert_eq!(cells[1], (3, 't'));
    assert_eq!(cells[2], (4, 'e'));
}

#[test]
fn header_cells_box_drawing_no_overlap() {
    let cells = FilledHeaderBar::new("┌─┐x").header_cells(10);
    assert_eq!(cells, vec![(1, '┌'), (2, '─'), (3, '┐'), (4, 'x')]);
}

#[test]
fn header_cells_newlines_become_spaces() {
    let cells = FilledHeaderBar::new("line1\nline2\r\nline3").header_cells(30);
    assert_eq!(cells[0], (1, 'l'));
    assert_eq!(cells[5], (6, ' '));
    assert_eq!(cells[6], (7, 'l'));
    assert!(cells.iter().all(|(_, c)| *c != '\n' && *c != '\r'));
}

#[test]
fn header_cells_stop_at_the_width() {
    let cells = FilledHeaderBar::new("abcdefgh").header_cells(5);
    assert_eq!(cells, vec![(1, 'a'), (2, 'b'), (3, 'c'), (4, 'd')]);
}

#[test]
fn body_lines_collapsed_and_empty() {
    let collapsed = FilledHeaderBar::new("Skill Activation").collapsed(true);
    assert_eq!(collapsed.body_lines(), vec!["▼ Output".to_string()]);
    let empty = FilledHeaderBar::new("Test");
    assert_eq!(empty.body_lines(), vec!["[no output]".to_string()]);
    let full = FilledHeaderBar::new("Read").content(vec!["fn main() {".into()]);
    assert_eq!(full.body_lines(), vec!["fn main() {".to_string()]);
}

// ─── PromptEditorOverlay ───

#[test]
fn height_fills_area() {
    let editor = PromptEditorOverlay::new("test");
    assert_eq!(editor.height(20), 20);
}

#[test]
fn cursor_visual_pos_at_end() {
    let editor = PromptEditorOverlay::new("hello").cursor_pos(5);
    let (vis_line, vis_col) = editor.cursor_visual_pos(80);
    assert_eq!(vis_line, 0);
    assert_eq!(vis_col, 5);
}

#[test]
fn new_editor_cursor_after_first_byte() {
    assert_eq!(PromptEditorOverlay::new("hello").cursor_pos, 1);
    assert_eq!(PromptEditorOverlay::new("").cursor_pos, 0);
}

#[test]
fn visual_lines_wrap_and_skip_empty_lines() {
    let editor = PromptEditorOverlay::new("abcdef\n\nxy\n");
    assert_eq!(editor.build_visual_lines(4), vec![(0, 0, 4), (0, 4, 6), (2, 0, 2), (3, 0, 0)]);
}

#[test]
fn cursor_on_second_line() {
    let editor = PromptEditorOverlay::new("ab\ncd").cursor_pos(4);
    assert_eq!(editor.cursor_visual_pos(80), (1, 1));
}

#[test]
fn editor_lines_with_cursor_block() {
    let editor = PromptEditorOverlay::new("hello world").cursor_pos(3);
    let lines = editor.lines(rect(0, 0, 20, 10)).unwrap();
    assert_eq!(lines.len(), 8);
    assert!(matches!(&lines[0], EditorLine::Rule(r) if r.chars().count() == 20));
    match &lines[1] {
        EditorLine::Cursor { before, under, after } => {
            assert_eq!(before, "hel");
            assert_eq!(*under, 'l');
            assert_eq!(after, "o world");
        }
        _ => panic!("expected the cursor row"),
    }
    assert!(matches!(lines[2], EditorLine::Blank));
    assert!(matches!(&lines[7], EditorLine::Hint(h) if h == "Enter: send  Esc: close  Ctrl+E"));
}

#[test]
fn editor_lines_cursor_at_end_shows_a_space() {
    let editor = PromptEditorOverlay::new("hello").cursor_pos(5);
    let lines = editor.lines(rect(0, 0, 20, 10)).unwrap();
    match &lines[1] {
        EditorLine::Cursor { before, under, after } => {
            assert_eq!(before, "hello");
            assert_eq!(*under, ' ');
            assert!(after.is_empty());
        }
        _ => panic!("expected the cursor row"),
    }
}

#[test]
fn editor_lines_too_small_area() {
    let editor = PromptEditorOverlay::new("hello");
    assert!(editor.lines(rect(0, 0, 9, 10)).is_none());
    assert!(editor.lines(rect(0, 0, 20, 3)).is_none());
}

#[test]
fn area_width_counts_item_bytes() {
    let popup = AutocompletePopup::new().items(vec!["é".repeat(21)]).anchor_row(10);
    let a = popup.area(80, 24).unwrap();
    assert_eq!(a.width, 44);
}

#[test]
fn editor_scrolls_to_keep_the_cursor_line_shown() {
    let text: String = (0..20).map(|i| format!("line{:02}\n", i)).collect();
    // Byte 15 * 7 + 2 falls on line 15.
    let editor = PromptEditorOverlay::new(&text).cursor_pos(15 * 7 + 2);
    let lines = editor.lines(rect(0, 0, 30, 10)).unwrap();
    assert_eq!(lines.len(), 8);
    let cursor_rows = lines.iter().filter(|l| matches!(l, EditorLine::Cursor { .. })).count();
    assert_eq!(cursor_rows, 1);
    assert!(matches!(&lines[3], EditorLine::Cursor { before, .. } if before == "li"));
    assert!(matches!(&lines[1], EditorLine::Text(t) if t == "line13"));
}

#[test]
fn palette_page_follows_the_selection() {
    let commands: Vec<(String, String)> = (0..10).map(|i| (format!("cmd{i}"), String::new())).collect();
    let palette = CommandPaletteOverlay::new().commands(commands).selected(7);
    let rows = palette.rows(rect(0, 0, 40, 6)).unwrap();
    let selected: Vec<&PaletteRow> = rows.iter().filter(|r| matches!(r, PaletteRow::Command { selected: true, .. })).collect();
    assert_eq!(selected.len(), 1);
    assert!(matches!(selected[0], PaletteRow::Command { text, .. } if text.starts_with("cmd7")));
}

#[test]
fn cursor_visual_pos_in_a_wrapped_line() {
    let editor = PromptEditorOverlay::new("hello world").cursor_pos(7);
    assert_eq!(editor.cursor_visual_pos(5), (1, 2));
    let gap = PromptEditorOverlay::new("a\n\nbc").cursor_pos(4);
    assert_eq!(gap.cursor_visual_pos(80), (1, 1));
}
