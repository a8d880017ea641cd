use respondami::blocks::{content_block_height, list_item_height, wrapped_height, ContentBlock, ListItem, TaskListItem};
use respondami::columns::compute_col_widths;
use respondami::wrap::{word_wrap_height, wrap_text, wrapped_line_count};

fn text(s: &str) -> Vec<String> {
    s.lines().map(String::from).collect()
}

// ─── word_wrap_height ───

#[test]
fn word_wrap_empty() {
    assert_eq!(word_wrap_height("", 40), 1);
}

#[test]
fn word_wrap_single_word_fits() {
    assert_eq!(word_wrap_height("hello", 10), 1);
}

#[test]
fn word_wrap_two_words_fit() {
    assert_eq!(word_wrap_height("hello world", 12), 1);
}

#[test]
fn word_wrap_two_words_wrap() {
    assert_eq!(word_wrap_height("hello world", 5), 2);
}

#[test]
fn word_wrap_long_word_exceeds_width() {
    assert_eq!(word_wrap_height("supercalifragilistic", 5), 4);
}

#[test]
fn word_wrap_long_word_exact_multiple() {
    assert_eq!(word_wrap_height("aaaaaaaaaa", 5), 2);
}

#[test]
fn word_wrap_long_word_plus_short() {
    assert_eq!(word_wrap_height("aaaaaa hi", 3), 3);
}

#[test]
fn word_wrap_single_char_words() {
    assert_eq!(word_wrap_height("a b c d e", 3), 3);
}

#[test]
fn word_wrap_unicode_chars() {
    assert_eq!(word_wrap_height("日本", 1), 2);
}

#[test]
fn word_wrap_unicode_white_space_separates_words() {
    // U+3000 (ideographic space) separates words like an ASCII space.
    assert_eq!(word_wrap_height("ab\u{3000}cd", 2), 2);
    assert_eq!(word_wrap_height("ab\u{3000}cd", 5), 1);
}

// ─── wrapped_height ───

#[test]
fn wrapped_height_single_span() {
    assert_eq!(wrapped_height(&text("hello world"), 10), 2);
}

#[test]
fn wrapped_height_multiple_lines() {
    let t = vec!["line one".to_string(), "line two".to_string()];
    assert_eq!(wrapped_height(&t, 40), 2);
}

#[test]
fn wrapped_height_empty_text_empty_lines() {
    let t: Vec<String> = vec![];
    assert_eq!(wrapped_height(&t, 40), 1);
}

#[test]
fn wrapped_height_zero_width_returns_line_count() {
    let t = vec!["a".to_string(), "b".to_string()];
    assert_eq!(wrapped_height(&t, 0), 2);
}

#[test]
fn wrapped_height_empty_text() {
    let t = vec![String::new()];
    assert_eq!(wrapped_height(&t, 40), 1);
}

#[test]
fn wrapped_height_single_line() {
    assert_eq!(wrapped_height(&text("hello"), 40), 1);
}

#[test]
fn wrapped_height_multi_line() {
    let t = vec!["hello".to_string(), "world".to_string()];
    assert_eq!(wrapped_height(&t, 40), 2);
}

#[test]
fn wrapped_height_wraps() {
    let long: String = (0..100).map(|_| 'a').collect();
    assert_eq!(wrapped_height(&vec![long], 10), 10);
}

#[test]
fn wrapped_height_zero_width() {
    let t = vec!["hello".to_string(), "world".to_string()];
    assert_eq!(wrapped_height(&t, 0), 2);
}

// ─── wrapped_line_count ───

#[test]
fn wrapped_line_count_single_word() {
    assert_eq!(wrapped_line_count("hello", 10), 1);
}

#[test]
fn wrapped_line_count_many_words() {
    assert_eq!(wrapped_line_count("the quick brown fox jumps", 8), 5);
}

#[test]
fn wrapped_line_count_empty() {
    assert_eq!(wrapped_line_count("", 40), 1);
}

#[test]
fn wrapped_line_count_zero_width() {
    assert_eq!(wrapped_line_count("hello", 0), 1);
}

#[test]
fn wrapped_line_count_exact_fit() {
    assert_eq!(wrapped_line_count("hello", 5), 1);
}

#[test]
fn wrapped_line_count_wraps_once() {
    assert_eq!(wrapped_line_count("hello world", 5), 2);
}

#[test]
fn wrapped_line_count_wide() {
    assert_eq!(wrapped_line_count("short", 80), 1);
}

// ─── compute_col_widths ───

#[test]
fn col_widths_exact_fit() {
    let headers = vec!["AB".to_string(), "CD".to_string()];
    let widths = compute_col_widths(&headers, &[], 5, 2);
    assert_eq!(widths.len(), 2);
}

#[test]
fn col_widths_single_column() {
    let headers = vec!["Col".to_string()];
    let widths = compute_col_widths(&headers, &[], 10, 1);
    assert_eq!(widths.len(), 1);
    assert_eq!(widths[0], 10);
}

#[test]
fn col_widths_three_columns() {
    let headers = vec!["A".to_string(), "B".to_string(), "C".to_string()];
    let widths = compute_col_widths(&headers, &[], 30, 3);
    assert_eq!(widths.len(), 3);
    let spacing = 2;
    assert_eq!(widths.iter().sum::<usize>() + spacing, 30);
}

#[test]
fn col_widths_content_determines_minimum() {
    let headers = vec!["Short".to_string(), "VeryLongHeader".to_string()];
    let widths = compute_col_widths(&headers, &[], 40, 2);
    assert!(widths[1] >= 14, "Column 2 should be at least 14 for 'VeryLongHeader'");
}

#[test]
fn col_widths_rows_affect_minimum() {
    let headers = vec!["A".to_string(), "B".to_string()];
    let rows = vec![vec!["short".to_string(), "very long cell content".to_string()]];
    let widths = compute_col_widths(&headers, &rows, 40, 2);
    assert!(widths[1] >= 22, "Column 2 should be at least 22");
}

#[test]
fn col_widths_zero_available() {
    let headers = vec!["A".to_string(), "B".to_string()];
    let widths = compute_col_widths(&headers, &[], 0, 2);
    assert_eq!(widths, vec![0, 0]);
}

#[test]
fn height_col_widths_zero_cols() {
    let headers: Vec<String> = vec![];
    let widths = compute_col_widths(&headers, &[], 40, 0);
    assert!(widths.is_empty());
}

#[test]
fn col_widths_minimum() {
    let headers = vec!["Name".to_string(), "Value".to_string()];
    let rows: Vec<Vec<String>> = vec![];
    let widths = compute_col_widths(&headers, &rows, 40, 2);
    assert_eq!(widths.len(), 2);
    assert!(widths[0] >= 4);
    assert!(widths[1] >= 5);
}

#[test]
fn col_widths_minimum_3() {
    let headers = vec!["A".to_string(), "B".to_string()];
    let rows: Vec<Vec<String>> = vec![];
    let widths = compute_col_widths(&headers, &rows, 40, 2);
    assert!(widths[0] >= 3);
    assert!(widths[1] >= 3);
}

#[test]
fn lib_col_widths_zero_cols() {
    let headers: Vec<String> = vec![];
    let rows: Vec<Vec<String>> = vec![];
    let widths = compute_col_widths(&headers, &rows, 40, 0);
    assert!(widths.is_empty());
}

#[test]
fn col_widths_proportional_distribution() {
    let headers = vec!["A".to_string(), "BBBB".to_string()];
    let rows: Vec<Vec<String>> = vec![];
    let widths = compute_col_widths(&headers, &rows, 20, 2);
    assert_eq!(widths[0] + widths[1] + 1, 20);
    assert!(widths[1] > widths[0], "wider column should get more space");
}

#[test]
fn col_widths_exact_values() {
    // minimums [3, 4], spare 12 shared as 12*3/7 = 5 and 12*4/7 = 6,
    // the remaining 1 goes to the first column.
    let headers = vec!["A".to_string(), "BBBB".to_string()];
    assert_eq!(compute_col_widths(&headers, &[], 20, 2), vec![9, 10]);
    // minimums do not fit: ceil(5 / 2) = 3 each
    let headers = vec!["AB".to_string(), "CD".to_string()];
    assert_eq!(compute_col_widths(&headers, &[], 5, 2), vec![3, 3]);
}

// ─── wrap_text ───

#[test]
fn wrap_text_fits() {
    assert_eq!(wrap_text("hello", 10), vec!["hello".to_string()]);
}

#[test]
fn wrap_text_exact_fit() {
    assert_eq!(wrap_text("hello", 5), vec!["hello".to_string()]);
}

#[test]
fn wrap_text_wraps() {
    let lines = wrap_text("hello world", 5);
    assert_eq!(lines, vec!["hello", "world"]);
}

#[test]
fn wrap_text_word_longer_than_width() {
    let lines = wrap_text("supercalifragilistic", 5);
    assert_eq!(lines.len(), 4);
    assert_eq!(lines[0], "super");
    assert_eq!(lines[1], "calif");
}

#[test]
fn wrap_text_empty_string() {
    let lines = wrap_text("", 10);
    assert_eq!(lines, vec!["".to_string()]);
}

#[test]
fn wrap_text_zero_width() {
    let lines = wrap_text("hello", 0);
    assert_eq!(lines, vec![String::new()]);
}

#[test]
fn wrap_text_single_word() {
    let lines = wrap_text("single", 20);
    assert_eq!(lines, vec!["single".to_string()]);
}

#[test]
fn wrap_text_unicode() {
    let lines = wrap_text("日本语", 2);
    assert_eq!(lines.len(), 2);
}

#[test]
fn wrap_text_rows_agree_with_row_count() {
    let t = "the quick brown fox jumps";
    assert_eq!(wrap_text(t, 8).len(), wrapped_line_count(t, 8));
    assert_eq!(wrap_text(t, 8), vec!["the", "quick", "brown", "fox", "jumps"]);
}

// ─── content block heights ───

#[test]
fn height_paragraph() {
    let block = ContentBlock::Paragraph { spans: vec![], text: text("hello") };
    assert_eq!(block.height(80), 2);
}

#[test]
fn height_heading_any_level() {
    let block = ContentBlock::Heading { level: 3, spans: vec![], text: text("title") };
    assert_eq!(block.height(80), 2);
}

#[test]
fn height_code_block_single_line() {
    let block = ContentBlock::CodeBlock { lang: "rust".into(), content: "fn main() {}.".into() };
    assert_eq!(block.height(80), 5);
}

#[test]
fn height_code_block_multiline() {
    let block = ContentBlock::CodeBlock { lang: "".into(), content: "a\nb\nc".into() };
    assert_eq!(block.height(80), 7);
}

#[test]
fn height_code_block_empty_content() {
    let block = ContentBlock::CodeBlock { lang: "".into(), content: "".into() };
    assert_eq!(block.height(80), 4);
}

#[test]
fn height_table_empty() {
    let block = ContentBlock::Table { headers: vec![], rows: vec![] };
    assert_eq!(block.height(80), 1);
}

#[test]
fn height_table_narrow_fallback() {
    let block = ContentBlock::Table {
        headers: vec!["A".into(), "B".into()],
        rows: vec![vec!["1".into(), "2".into()]],
    };
    assert_eq!(block.height(5), 1);
}

#[test]
fn height_task_list_single_item() {
    let block = ContentBlock::TaskList {
        items: vec![TaskListItem { spans: vec![], checked: true, text: text("do this") }],
    };
    assert_eq!(block.height(80), 2);
}

#[test]
fn height_task_list_wrapped() {
    let long = "a".repeat(100);
    let block = ContentBlock::TaskList {
        items: vec![TaskListItem { spans: vec![], checked: false, text: vec![long] }],
    };
    assert_eq!(block.height(40), 4);
}

#[test]
fn height_blockquote() {
    let block = ContentBlock::BlockQuote { spans: vec![], text: text("quote") };
    assert_eq!(block.height(80), 2);
}

#[test]
fn height_blockquote_narrow() {
    let block = ContentBlock::BlockQuote { spans: vec![], text: text("a long quote that wraps") };
    assert_eq!(block.height(20), 3);
}

#[test]
fn height_rule() {
    assert_eq!(ContentBlock::Rule.height(80), 2);
}

#[test]
fn height_list_empty_item() {
    let block = ContentBlock::List {
        ordered: false,
        start: 1,
        items: vec![ListItem { spans: vec![], text: vec![], children: vec![] }],
    };
    assert_eq!(block.height(80), 1);
}

#[test]
fn height_list_deeply_nested() {
    let block = ContentBlock::List {
        ordered: false,
        start: 1,
        items: vec![ListItem { spans: vec![],
            text: text("parent"),
            children: vec![ListItem { spans: vec![],
                text: text("child"),
                children: vec![ListItem { spans: vec![], text: text("grandchild"), children: vec![] }],
            }],
        }],
    };
    let h = block.height(80);
    assert!(h >= 5, "Deeply nested list height should be >= 5, got {}", h);
}

#[test]
fn height_list_zero_width() {
    let block = ContentBlock::List {
        ordered: false,
        start: 1,
        items: vec![ListItem { spans: vec![], text: text("item"), children: vec![] }],
    };
    assert_eq!(block.height(0), 2);
}

#[test]
fn list_item_text_height_nested_children_same_width() {
    let item = ListItem { spans: vec![],
        text: text("parent"),
        children: vec![ListItem { spans: vec![], text: text("child"), children: vec![] }],
    };
    assert_eq!(list_item_height(&item, 40), 4);
}

#[test]
fn paragraph_height() {
    let block = ContentBlock::Paragraph { spans: vec![], text: text("hello world") };
    assert_eq!(block.height(40), 2);
}

#[test]
fn heading_height() {
    let block = ContentBlock::Heading { level: 1, spans: vec![], text: text("heading") };
    assert_eq!(block.height(40), 2);
}

#[test]
fn code_block_height() {
    let block = ContentBlock::CodeBlock {
        lang: "rust".to_string(),
        content: "fn main() {}\nlet x = 1;".to_string(),
    };
    assert_eq!(block.height(40), 6);
}

#[test]
fn table_height() {
    let block = ContentBlock::Table {
        headers: vec!["A".to_string(), "B".to_string()],
        rows: vec![
            vec!["foo".to_string(), "bar".to_string()],
            vec!["baz".to_string(), "qux".to_string()],
        ],
    };
    assert_eq!(block.height(40), 8);
}

#[test]
fn table_height_wrapped_cells() {
    let long = "this is a very long cell content".to_string();
    let block = ContentBlock::Table {
        headers: vec!["A".to_string(), "B".to_string()],
        rows: vec![vec![long.clone(), "x".to_string()]],
    };
    let h_narrow = block.height(20);
    let h_wide = block.height(80);
    assert!(h_narrow > h_wide, "narrow table should be taller: {} > {}", h_narrow, h_wide);
}

#[test]
fn list_height() {
    let block = ContentBlock::List {
        ordered: false,
        start: 1,
        items: vec![
            ListItem { spans: vec![], text: text("item 1"), children: vec![] },
            ListItem { spans: vec![], text: text("item 2"), children: vec![] },
        ],
    };
    assert_eq!(block.height(40), 4);
}

#[test]
fn list_height_nested() {
    let block = ContentBlock::List {
        ordered: false,
        start: 1,
        items: vec![ListItem { spans: vec![],
            text: text("parent"),
            children: vec![
                ListItem { spans: vec![], text: text("child 1"), children: vec![] },
                ListItem { spans: vec![], text: text("child 2"), children: vec![] },
            ],
        }],
    };
    assert_eq!(block.height(40), 6);
}

#[test]
fn task_list_height() {
    let block = ContentBlock::TaskList {
        items: vec![
            TaskListItem { spans: vec![], checked: false, text: text("task 1") },
            TaskListItem { spans: vec![], checked: true, text: text("task 2") },
        ],
    };
    assert_eq!(block.height(40), 4);
}

#[test]
fn rule_height() {
    assert_eq!(ContentBlock::Rule.height(40), 2);
}

#[test]
fn block_quote_height() {
    let block = ContentBlock::BlockQuote { spans: vec![], text: text("quoted text") };
    assert_eq!(block.height(40), 2);
}

#[test]
fn table_height_accounts_for_highlight_spacing() {
    let headers = vec!["A".to_string(), "B".to_string()];
    let rows = vec![
        vec!["foo".to_string(), "bar".to_string()],
        vec!["baz".to_string(), "qux".to_string()],
    ];
    let block = ContentBlock::Table { headers, rows };
    assert_eq!(block.height(80), 8);
}

#[test]
fn list_height_ordered_vs_unordered() {
    let long_text = "a".repeat(77);
    let ordered = ContentBlock::List {
        ordered: true,
        start: 1,
        items: vec![ListItem { spans: vec![], text: vec![long_text.clone()], children: vec![] }],
    };
    assert_eq!(ordered.height(80), 3, "ordered list height");
    let unordered = ContentBlock::List {
        ordered: false,
        start: 1,
        items: vec![ListItem { spans: vec![], text: vec![long_text], children: vec![] }],
    };
    assert_eq!(unordered.height(80), 3, "unordered list height (overestimates vs rendering)");
}

#[test]
fn height_aware_rule() {
    assert_eq!(ContentBlock::Rule.height(80), 2);
}

#[test]
fn height_aware_paragraph() {
    let block = ContentBlock::Paragraph { spans: vec![], text: vec!["hello".to_string()] };
    assert_eq!(block.height(80), 2);
}

#[test]
fn content_block_height_of_code_and_quote() {
    let code = ContentBlock::CodeBlock { lang: "rust".to_string(), content: "a\nb\nc".to_string() };
    assert_eq!(content_block_height(&code, 80), 7);
    let quote = ContentBlock::BlockQuote { spans: vec![], text: vec!["one two three".to_string()] };
    assert_eq!(content_block_height(&quote, 9), 3);
}

#[test]
fn wrap_text_splits_long_word_after_a_row() {
    assert_eq!(wrap_text("hi supercalifragilistic", 5), vec!["hi", "super", "calif", "ragil", "istic"]);
    assert_eq!(wrapped_line_count("hi supercalifragilistic", 5), 5);
}

#[test]
fn wider_rows_never_add_lines() {
    let text = "the quick brown fox jumps over supercalifragilistic dogs";
    let mut previous = wrapped_line_count(text, 1);
    for width in 2..70 {
        let count = wrapped_line_count(text, width);
        assert!(count <= previous, "width {} gave {} rows after {}", width, count, previous);
        previous = count;
    }
    assert_eq!(wrapped_line_count("hello world foo", 5), 3);
    assert_eq!(wrapped_line_count("hello world foo", 20), 1);
}

#[test]
fn wrapped_rows_keep_the_text() {
    let text = "hello  world\tfoo supercalifragilistic x\n y";
    let strip = |s: &str| s.chars().filter(|c| !c.is_whitespace()).collect::<String>();
    for width in 1..45 {
        let rows = wrap_text(text, width);
        assert_eq!(strip(&rows.concat()), strip(text), "width {}", width);
    }
}
