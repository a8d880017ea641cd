use respondami::widgets::autocomplete::{AutocompletePopup, PopupRow};
use respondami::widgets::command_palette::{CommandPaletteOverlay, PaletteRow};
use respondami::widgets::header_bar::FilledHeaderBar;
use respondami::widgets::panel::{PanelOverlay, PanelRow};
use respondami::widgets::prompt_editor::{EditorLine, PromptEditorOverlay};
use respondami::widgets::Rect;

fn rect(width: u16, height: u16) -> Rect {
    Rect { x: 0, y: 0, width, height }
}

// ─── AutocompletePopup ───

#[test]
fn autocomplete_popup_render_basic() {
    let popup = AutocompletePopup::new().items(vec!["file1.rs".into(), "file2.rs".into()]).selected(0);
    let rows = popup.rows(rect(15, 4)).unwrap();
    assert!(matches!(&rows[0], PopupRow::Item { text, selected: true } if text.starts_with('→')));
}

#[test]
fn render_with_footer() {
    let popup = AutocompletePopup::new()
        .items(vec!["file1.rs".into(), "file2.rs".into()])
        .selected(0)
        .footer("toggle hidden".to_string());
    let rows = popup.rows(rect(20, 6)).unwrap();
    assert!(matches!(&rows[0], PopupRow::Item { text, .. } if text.starts_with('→')));
    assert!(matches!(&rows[2], PopupRow::Divider(_)));
    assert!(matches!(&rows[3], PopupRow::Footer(f) if f.starts_with('t')));
}

#[test]
fn render_truncation_enabled() {
    let popup = AutocompletePopup::new()
        .items(vec!["src/components/ui/widgets/slider.rs".into()])
        .selected(0)
        .truncate_front(true)
        .truncate_max_width(20);
    let rows = popup.rows(rect(25, 3)).unwrap();
    match &rows[0] {
        PopupRow::Item { text, .. } => {
            assert!(text.starts_with('→'));
            assert!(text.contains('…'), "Expected ellipsis in rendered row, got: {}", text);
        }
        _ => panic!("expected an item row"),
    }
}

// ─── CommandPaletteOverlay ───

#[test]
fn command_palette_overlay_render_basic() {
    let palette = CommandPaletteOverlay::new()
        .query("test")
        .commands(vec![("Toggle".into(), "[collapsed → expanded]".into())])
        .selected(0);
    let rows = palette.rows(rect(40, 5)).unwrap();
    match &rows[0] {
        PaletteRow::Input(s) => {
            let cs: Vec<char> = s.chars().collect();
            assert_eq!(cs[0], '>');
            assert_eq!(cs[2], 't');
        }
        _ => panic!("expected the input row"),
    }
}

// ─── FilledHeaderBar ───

#[test]
fn render_collapsed() {
    let widget = FilledHeaderBar::new("Skill Activation").collapsed(true);
    assert_eq!(widget.header_cells(20)[0], (1, 'S'));
}

#[test]
fn render_expanded() {
    let widget = FilledHeaderBar::new("Read: src/main.rs").content(vec!["fn main() {".into()]);
    assert_eq!(widget.header_cells(20)[0], (1, 'R'));
    assert!(widget.body_lines()[0].starts_with('f'));
}

#[test]
fn render_empty_content_shows_no_output() {
    let widget = FilledHeaderBar::new("Test").content(vec![]);
    assert!(widget.body_lines()[0].starts_with('['));
}

#[test]
fn render_header_wide_chars_no_overlap() {
    let cells = FilledHeaderBar::new("😀test").header_cells(10);
    assert_eq!(cells[0], (1, '😀'));
    assert_eq!(cells[1], (3, 't'));
    assert_eq!(cells[2], (4, 'e'));
}

#[test]
fn render_header_box_drawing_no_overlap() {
    let cells = FilledHeaderBar::new("┌─┐x").header_cells(10);
    assert_eq!(&cells[..4], &[(1, '┌'), (2, '─'), (3, '┐'), (4, 'x')]);
}

#[test]
fn render_header_with_newlines_does_not_break_layout() {
    let widget = FilledHeaderBar::new("bash: rtk git commit -m \"fix\n\nbody text here\"")
        .content(vec!["content line 1".into()]);
    let cells = widget.header_cells(40);
    assert_eq!(cells[0], (1, 'b'));
    assert!(widget.body_lines()[0].starts_with('c'));
    for (x, c) in &cells {
        assert!(*c != '\n' && *c != '\r', "Control character leaked at column {}", x);
    }
}

#[test]
fn render_header_newlines_replaced_with_spaces() {
    let widget = FilledHeaderBar::new("line1\nline2\r\nline3");
    let cells = widget.header_cells(30);
    assert_eq!(cells[0], (1, 'l'));
    assert_eq!(cells[6], (7, 'l'));
    assert!(widget.body_lines()[0].starts_with('['));
}

#[test]
fn render_header_only_newlines() {
    let cells = FilledHeaderBar::new("\n\n\n").header_cells(10);
    for (x, c) in &cells {
        assert_eq!(*c, ' ', "Unexpected char at col {}: {:?}", x, c);
    }
}

// ─── PanelOverlay ───

#[test]
fn panel_overlay_render_basic() {
    let overlay = PanelOverlay::new(" Title ").content(vec!["Content".into()]);
    assert!(overlay.title.contains('T'));
    let rows = overlay.rows(rect(10, 3)).unwrap();
    assert!(matches!(&rows[0], PanelRow::Line { text, .. } if text == "Content"));
}

#[test]
fn render_selected() {
    let overlay = PanelOverlay::new(" List ").content(vec!["item 1".into(), "item 2".into()]).selected(1);
    let rows = overlay.rows(rect(10, 4)).unwrap();
    assert!(matches!(&rows[1], PanelRow::Line { selected: true, .. }));
}

// ─── PromptEditorOverlay ───

#[test]
fn prompt_editor_overlay_render_basic() {
    let editor = PromptEditorOverlay::new("hello world");
    assert!(editor.title.contains('P'));
    assert!(editor.lines(rect(20, 10)).is_some());
}

#[test]
fn render_with_cursor() {
    let editor = PromptEditorOverlay::new("hello world").cursor_pos(3);
    let lines = editor.lines(rect(20, 10)).unwrap();
    assert!(lines.iter().any(|l| matches!(l, EditorLine::Cursor { under: 'l', .. })));
}

#[test]
fn render_cursor_at_end() {
    let editor = PromptEditorOverlay::new("hello").cursor_pos(5);
    let lines = editor.lines(rect(20, 10)).unwrap();
    assert!(lines.iter().any(|l| matches!(l, EditorLine::Cursor { under: ' ', .. })));
}
