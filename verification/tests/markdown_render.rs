use respondami::blocks::{ContentBlock, ListItem, Span, SpanStyle};
use respondami::markdown::normalize_list_markers;
use respondami::md_parse::render_markdown;

fn render(md: &str) -> Vec<ContentBlock> {
    render_markdown(md)
}

fn block_type(b: &ContentBlock) -> &'static str {
    match b {
        ContentBlock::Paragraph { .. } => "Paragraph",
        ContentBlock::Heading { .. } => "Heading",
        ContentBlock::CodeBlock { .. } => "CodeBlock",
        ContentBlock::Table { .. } => "Table",
        ContentBlock::List { .. } => "List",
        ContentBlock::TaskList { .. } => "TaskList",
        ContentBlock::BlockQuote { .. } => "BlockQuote",
        ContentBlock::Rule => "Rule",
    }
}

fn text_str(text: &[String]) -> String {
    text.concat()
}

fn item_text(item: &ListItem) -> String {
    text_str(&item.text)
}

// ─── Empty / whitespace ───

#[test]
fn render_empty_string() {
    assert!(render("").is_empty());
}

#[test]
fn render_whitespace_only() {
    assert!(render("   \n\n   ").is_empty());
}

// ─── Paragraphs ───

#[test]
fn render_single_paragraph() {
    let blocks = render("Hello world");
    assert_eq!(blocks.len(), 1);
    assert_eq!(block_type(&blocks[0]), "Paragraph");
    if let ContentBlock::Paragraph { text, .. } = &blocks[0] {
        assert_eq!(text_str(text), "Hello world");
    }
}

#[test]
fn render_multiple_paragraphs() {
    let blocks = render("Para one\n\nPara two");
    assert_eq!(blocks.len(), 2);
    assert_eq!(block_type(&blocks[0]), "Paragraph");
    assert_eq!(block_type(&blocks[1]), "Paragraph");
}

// ─── Headings ───

#[test]
fn render_h1() {
    let blocks = render("# Title");
    assert_eq!(blocks.len(), 1);
    if let ContentBlock::Heading { level, text, .. } = &blocks[0] {
        assert_eq!(*level, 1);
        assert_eq!(text_str(text), "Title");
    } else {
        panic!("Expected Heading");
    }
}

#[test]
fn render_h2() {
    let blocks = render("## Subtitle");
    assert_eq!(blocks.len(), 1);
    if let ContentBlock::Heading { level, text, .. } = &blocks[0] {
        assert_eq!(*level, 2);
        assert_eq!(text_str(text), "Subtitle");
    } else {
        panic!("Expected Heading");
    }
}

#[test]
fn render_h3_through_h6() {
    for (level, prefix) in [(3, "###"), (4, "####"), (5, "#####"), (6, "######")] {
        let blocks = render(&format!("{} Heading {}", prefix, level));
        assert_eq!(blocks.len(), 1, "H{} should produce 1 block", level);
        if let ContentBlock::Heading { level: l, .. } = &blocks[0] {
            assert_eq!(*l, level, "H{} level mismatch", level);
        } else {
            panic!("Expected Heading for H{}", level);
        }
    }
}

// ─── Code blocks ───

#[test]
fn render_fenced_code_with_language() {
    let blocks = render("```rust\nfn main() {}\n```");
    assert_eq!(blocks.len(), 1);
    if let ContentBlock::CodeBlock { lang, content } = &blocks[0] {
        assert_eq!(lang, "rust");
        assert_eq!(content, "fn main() {}\n");
    } else {
        panic!("Expected CodeBlock");
    }
}

#[test]
fn render_indented_code_block() {
    let blocks = render("    fn main() {}\n");
    assert_eq!(blocks.len(), 1);
    if let ContentBlock::CodeBlock { lang, content } = &blocks[0] {
        assert!(lang.is_empty(), "Indented code should have empty lang");
        assert!(content.contains("fn main"));
    } else {
        panic!("Expected CodeBlock");
    }
}

#[test]
fn render_empty_code_block() {
    let blocks = render("```\n```\n");
    assert_eq!(blocks.len(), 1);
    if let ContentBlock::CodeBlock { lang, content } = &blocks[0] {
        assert!(lang.is_empty());
        assert!(content.is_empty());
    } else {
        panic!("Expected CodeBlock");
    }
}

#[test]
fn render_code_block_multiline() {
    let blocks = render("```python\ndef foo():\n    return 42\n```\n");
    if let ContentBlock::CodeBlock { lang, content } = &blocks[0] {
        assert_eq!(lang, "python");
        assert!(content.contains("def foo"));
        assert!(content.contains("return 42"));
    } else {
        panic!("Expected CodeBlock");
    }
}

// ─── Inline code ───

fn first_span(blocks: &[ContentBlock]) -> &Span {
    if let ContentBlock::Paragraph { spans, .. } = &blocks[0] {
        assert!(!spans.is_empty());
        assert!(!spans[0].is_empty());
        &spans[0][0]
    } else {
        panic!("Expected Paragraph");
    }
}

#[test]
fn render_bold_text() {
    let blocks = render("**bold text**");
    let span = first_span(&blocks);
    assert!(matches!(span.style, SpanStyle::Text { bold: true, .. }), "Should have BOLD modifier");
    assert_eq!(span.content, "bold text");
}

#[test]
fn render_italic_text() {
    let blocks = render("*italic text*");
    let span = first_span(&blocks);
    assert!(matches!(span.style, SpanStyle::Text { italic: true, .. }), "Should have ITALIC modifier");
}

#[test]
fn render_strikethrough_text() {
    let blocks = render("~~deleted~~");
    let span = first_span(&blocks);
    assert!(matches!(span.style, SpanStyle::Text { strikethrough: true, .. }), "Should have CROSSED_OUT");
}

#[test]
fn render_bold_italic_combined() {
    let blocks = render("***bold italic***");
    let span = first_span(&blocks);
    assert!(matches!(span.style, SpanStyle::Text { bold: true, .. }), "Should have BOLD");
    assert!(matches!(span.style, SpanStyle::Text { italic: true, .. }), "Should have ITALIC");
}

#[test]
fn render_inline_code() {
    let blocks = render("Use `cargo test`");
    if let ContentBlock::Paragraph { spans, .. } = &blocks[0] {
        assert!(spans[0].len() >= 2, "Expected at least 2 spans, got {}", spans[0].len());
        assert_eq!(spans[0][1].content, "cargo test");
        assert_eq!(spans[0][1].style, SpanStyle::Code);
    } else {
        panic!("Expected Paragraph");
    }
}

#[test]
fn plain_and_heading_text_styles() {
    let blocks = render("# Title\n\nplain *it* [x](https://e.org)");
    if let ContentBlock::Heading { spans, .. } = &blocks[0] {
        assert_eq!(
            spans[0][0].style,
            SpanStyle::Text { bold: false, italic: false, strikethrough: false, heading: true }
        );
    } else {
        panic!("Expected Heading");
    }
    if let ContentBlock::Paragraph { text, spans } = &blocks[1] {
        let runs: Vec<(&str, SpanStyle)> = spans[0].iter().map(|s| (s.content.as_str(), s.style)).collect();
        let plain = SpanStyle::Text { bold: false, italic: false, strikethrough: false, heading: false };
        let italic = SpanStyle::Text { bold: false, italic: true, strikethrough: false, heading: false };
        assert_eq!(runs, vec![("plain ", plain), ("it", italic), (" ", plain), ("x (https://e.org)", SpanStyle::Link)]);
        assert_eq!(text[0], "plain it x (https://e.org)");
    } else {
        panic!("Expected Paragraph");
    }
}

#[test]
fn render_inline_code_keeps_text() {
    let blocks = render("Use `cargo test`");
    if let ContentBlock::Paragraph { text, .. } = &blocks[0] {
        assert_eq!(text_str(text), "Use cargo test");
    } else {
        panic!("Expected Paragraph");
    }
}

// ─── Links ───

#[test]
fn render_link_with_text() {
    let blocks = render("[click here](https://example.com)");
    if let ContentBlock::Paragraph { text, .. } = &blocks[0] {
        let t = text_str(text);
        assert!(t.contains("click here"));
        assert!(t.contains("https://example.com"));
    } else {
        panic!("Expected Paragraph");
    }
}

#[test]
fn render_link_without_text() {
    let blocks = render("[](https://example.com)");
    if let ContentBlock::Paragraph { text, .. } = &blocks[0] {
        let t = text_str(text);
        assert!(t.contains("https://example.com"));
    } else {
        panic!("Expected Paragraph");
    }
}

// ─── Block quotes ───

#[test]
fn render_blockquote() {
    let blocks = render("> This is a quote\n");
    assert_eq!(blocks.len(), 1);
    assert_eq!(block_type(&blocks[0]), "BlockQuote");
    if let ContentBlock::BlockQuote { text, .. } = &blocks[0] {
        assert_eq!(text_str(text), "This is a quote");
    }
}

#[test]
fn render_blockquote_multiline() {
    let blocks = render("> Line one\n> Line two\n");
    assert_eq!(blocks.len(), 1);
    assert_eq!(block_type(&blocks[0]), "BlockQuote");
}

#[test]
fn render_empty_blockquote() {
    let blocks = render(">");
    assert!(blocks.is_empty(), "Empty blockquote should produce no blocks");
}

// ─── Horizontal rule ───

#[test]
fn render_rule() {
    let blocks = render("---");
    assert_eq!(blocks.len(), 1);
    assert_eq!(block_type(&blocks[0]), "Rule");
}

#[test]
fn render_rule_with_asterisks() {
    let blocks = render("***");
    assert_eq!(blocks.len(), 1);
    assert_eq!(block_type(&blocks[0]), "Rule");
}

#[test]
fn render_rule_with_dashes_long() {
    let blocks = render("-----");
    assert_eq!(blocks.len(), 1);
    assert_eq!(block_type(&blocks[0]), "Rule");
}

// ─── Mixed document ───

#[test]
fn render_mixed_document() {
    let md = "# Title\n\nSome text\n\n```rust\ncode\n```\n\n- item\n\n> quote\n\n---\n";
    let blocks = render(md);
    let types: Vec<_> = blocks.iter().map(block_type).collect();
    assert!(types.contains(&"Heading"));
    assert!(types.contains(&"Paragraph"));
    assert!(types.contains(&"CodeBlock"));
    assert!(types.contains(&"List"));
    assert!(types.contains(&"BlockQuote"));
    assert!(types.contains(&"Rule"));
}

#[test]
fn parsing_render_ordered_list_custom_start() {
    let blocks = render("3. Three\n4. Four\n5. Five");
    if let Some(ContentBlock::List { ordered, start, items }) =
        blocks.iter().find(|b| matches!(b, ContentBlock::List { .. }))
    {
        assert!(*ordered);
        assert_eq!(*start, 3);
        assert_eq!(items.len(), 3);
    } else {
        panic!("Expected ordered list");
    }
}

#[test]
fn render_hard_break() {
    let blocks = render("Line one  \nLine two");
    if let ContentBlock::Paragraph { text, .. } = &blocks[0] {
        assert!(text.len() >= 3, "Hard break should add extra line, got {} lines", text.len());
    } else {
        panic!("Expected Paragraph");
    }
}

// ─── normalize_list_markers ───

#[test]
fn normalize_preserves_ascii() {
    let input = "- normal item";
    assert_eq!(normalize_list_markers(input), input);
}

#[test]
fn normalize_preserves_leading_whitespace() {
    let input = "  • indented";
    let out = normalize_list_markers(input);
    assert_eq!(out, "  - indented");
}

#[test]
fn normalize_all_bullet_types() {
    let bullets = ['•', '◦', '▪', '■', '●', '○', '◇', '▸'];
    for b in &bullets {
        let input = format!("{} item", b);
        let out = normalize_list_markers(&input);
        assert_eq!(out, "- item", "Bullet {:?} not normalized", b);
    }
}

#[test]
fn normalize_bullet_no_space_after() {
    let input = "•item";
    let out = normalize_list_markers(input);
    assert_eq!(out, "- item");
}

#[test]
fn test_normalize_unicode_bullets() {
    let md = "• Item 1\n• Item 2\n\n• Item 3";
    let normalized = normalize_list_markers(md);
    assert!(normalized.starts_with("- Item 1"));
    assert!(normalized.contains("- Item 2"));
    assert!(normalized.contains("- Item 3"));
    let has_list = render(md).iter().any(|b| matches!(b, ContentBlock::List { .. }));
    assert!(has_list, "Normalized markdown should parse as list: {}", normalized);
}

// ─── Tables ───

#[test]
fn test_table_parsing() {
    let markdown = "| Name | Value |\n|------|-------|\n| A    | 1     |";
    let result = render(markdown);
    let table_blocks: Vec<&ContentBlock> =
        result.iter().filter(|b| matches!(b, ContentBlock::Table { .. })).collect();
    assert_eq!(table_blocks.len(), 1);
    if let ContentBlock::Table { headers, rows } = table_blocks[0] {
        assert_eq!(headers, &["Name", "Value"]);
        assert_eq!(rows.len(), 1);
        assert_eq!(rows[0], vec!["A", "1"]);
    }
}

#[test]
fn test_table_header_not_duplicated() {
    let markdown = "| Name | Value |\n|------|-------|\n| A    | 1     |\n| B    | 2     |";
    let result = render(markdown);
    if let Some(ContentBlock::Table { headers, rows }) =
        result.iter().find(|b| matches!(b, ContentBlock::Table { .. }))
    {
        assert_eq!(headers, &["Name", "Value"]);
        for row in rows {
            assert!(!row.iter().any(|c| c == "Name"), "Header 'Name' found in data row: {:?}", row);
            assert!(!row.iter().any(|c| c == "Value"), "Header 'Value' found in data row: {:?}", row);
        }
        assert_eq!(rows.len(), 2);
    } else {
        panic!("No table block found");
    }
}

#[test]
fn test_table_multiple_rows() {
    let markdown = "| X | Y |\n|---|---|\n| 1 | 2 |\n| 3 | 4 |";
    let result = render(markdown);
    if let Some(ContentBlock::Table { headers, rows }) =
        result.iter().find(|b| matches!(b, ContentBlock::Table { .. }))
    {
        assert_eq!(headers, &["X", "Y"]);
        assert_eq!(rows.len(), 2);
        assert_eq!(rows[0], vec!["1", "2"]);
        assert_eq!(rows[1], vec!["3", "4"]);
    } else {
        panic!("No table block found");
    }
}

#[test]
fn test_table_column_widths() {
    let markdown = "| A | Short |\n|---|-------|\n| Long text | B |";
    let result = render(markdown);
    if let Some(table) = result.iter().find(|b| matches!(b, ContentBlock::Table { .. })) {
        let height = table.height(40);
        assert!(height >= 5, "Table height should accommodate borders and rows: {}", height);
        if let ContentBlock::Table { headers, rows } = table {
            assert_eq!(headers.len(), 2);
            assert_eq!(rows.len(), 1);
            assert_eq!(rows[0][0], "Long text");
        }
    } else {
        panic!("No table block found");
    }
}

// ─── Lists ───

#[test]
fn test_unicode_bullet_list_rendering() {
    let md = "Question?\n\n• Item 1 text.\n• Item 2 text.\n\n• Item 3 text.";
    let result = render(md);
    let list_blocks: Vec<&ContentBlock> =
        result.iter().filter(|b| matches!(b, ContentBlock::List { .. })).collect();
    assert!(!list_blocks.is_empty(), "Expected at least 1 list block");
    if let ContentBlock::List { items, .. } = list_blocks[0] {
        assert_eq!(items.len(), 3, "Expected 3 items, got {}", items.len());
    }
}

#[test]
fn test_list_items_have_text() {
    let md = "- First item\n- Second item\n- Third item";
    let result = render(md);
    let list_blocks: Vec<&ContentBlock> =
        result.iter().filter(|b| matches!(b, ContentBlock::List { .. })).collect();
    assert!(!list_blocks.is_empty(), "Expected list block");
    if let ContentBlock::List { items, .. } = list_blocks[0] {
        assert_eq!(items.len(), 3);
        for (i, item) in items.iter().enumerate() {
            assert!(!item_text(item).is_empty(), "Item {} has empty text", i);
        }
        assert!(item_text(&items[0]).contains("First"));
        assert!(item_text(&items[1]).contains("Second"));
        assert!(item_text(&items[2]).contains("Third"));
    }
}

#[test]
fn test_ordered_list_items_have_text() {
    let md = "1. Alpha\n2. Beta\n3. Gamma";
    let result = render(md);
    if let Some(ContentBlock::List { ordered: true, items, .. }) =
        result.iter().find(|b| matches!(b, ContentBlock::List { .. }))
    {
        assert_eq!(items.len(), 3);
        assert!(item_text(&items[0]).contains("Alpha"));
        assert!(item_text(&items[1]).contains("Beta"));
    } else {
        panic!("Expected ordered list block");
    }
}

#[test]
fn test_list_with_inline_code() {
    let md = "- Use `cargo test` to run tests";
    let result = render(md);
    if let Some(ContentBlock::List { items, .. }) =
        result.iter().find(|b| matches!(b, ContentBlock::List { .. }))
    {
        assert_eq!(items.len(), 1);
        let text = item_text(&items[0]);
        assert!(text.contains("cargo test"), "Item text should contain inline code: {}", text);
    } else {
        panic!("Expected list block");
    }
}

#[test]
fn test_nested_ordered_unordered_list() {
    let md = "1. First main point\n   - Item A\n   - Item B\n   - Item C\n2. Second main point\n   - Item X\n   - Item Y\n   - Item Z";
    let result = render(md);
    let list_blocks: Vec<&ContentBlock> =
        result.iter().filter(|b| matches!(b, ContentBlock::List { .. })).collect();
    assert_eq!(list_blocks.len(), 1, "Expected 1 list block");
    if let ContentBlock::List { ordered: true, items, .. } = list_blocks[0] {
        assert_eq!(items.len(), 2, "Expected 2 top-level items");
        assert_eq!(items[0].children.len(), 3, "First item should have 3 children");
        assert_eq!(items[1].children.len(), 3, "Second item should have 3 children");
        assert!(item_text(&items[0]).contains("First main point"));
        assert!(item_text(&items[1]).contains("Second main point"));
        for (i, child) in items[0].children.iter().enumerate() {
            assert!(!item_text(child).is_empty(), "Child {} of item 1 has empty text", i);
        }
        assert_eq!(item_text(&items[0].children[0]), "Item A");
        assert_eq!(item_text(&items[1].children[0]), "Item X");
    } else {
        panic!("Expected ordered list block");
    }
}

#[test]
fn render_task_markers_in_tight_list_stay_a_list() {
    let blocks = render("- [x] done\n- [ ] open");
    assert_eq!(blocks.len(), 1);
    if let ContentBlock::List { ordered, items, .. } = &blocks[0] {
        assert!(!*ordered);
        assert_eq!(items.len(), 2);
        assert_eq!(item_text(&items[0]), "done");
        assert_eq!(item_text(&items[1]), "open");
    } else {
        panic!("Expected List");
    }
}

// ─── Heights of rendered blocks ───

#[test]
fn cumulative_block_heights_for_clip() {
    let blocks = render("# Title\n\nPara 1\n\nPara 2");
    let width = 80;
    let mut cumulative = 0usize;
    let expected: Vec<(usize, usize)> = blocks
        .iter()
        .map(|b| {
            let h = b.height(width);
            let start = cumulative;
            cumulative += h;
            (start, h)
        })
        .collect();
    let clip_start = 3;
    let mut skip_count = 0;
    for (start, h) in &expected {
        if start + h <= clip_start {
            skip_count += 1;
        }
    }
    assert_eq!(skip_count, 1, "clip_start={} should skip {} blocks", clip_start, skip_count);
}

#[test]
fn full_message_height_matches_rendered() {
    let md = r#"# Title

This is a very long paragraph that will wrap multiple times to test if the height calculation is correct. It should include enough text to exceed the viewport width and force line wrapping. The content must be tall enough to trigger the bug where content was cut off at "2. Settings".

## Section 1

Some content here.

## Section 2

More content that needs to be visible.

1. Item one
2. Item two
3. Item three
4. Item four
5. Item five
6. Item six
7. Item seven
8. Item eight
9. Item nine
10. Item ten

## Section 3

Final section with additional content to ensure the total height is large enough to contain everything.

- List item 1
- List item 2
- List item 3
- List item 4
- List item 5

```rust
fn main() {
    println!("Hello, world!");
    let x = 42;
    let y = 100;
    let z = x + y;
    println!("Result: {}", z);
}
```

### Subsection 3.1

Even more content to push the total height past any reasonable viewport.

| Name | Value |
|------|-------|
| A    | 1     |
| B    | 2     |
| C    | 3     |

> This is a blockquote that adds more height to the message.

- Final list item 1
- Final list item 2
- Final list item 3
- Final list item 4
- Final list item 5
- Final list item 6
- Final list item 7
- Final list item 8
- Final list item 9
- Final list item 10"#;
    let blocks = render(md);
    let width = 80;
    let total_height: usize = blocks.iter().map(|b| b.height(width)).sum();
    assert!(total_height > 60, "total height {} seems too small", total_height);
}

#[test]
fn empty_list_items_are_dropped() {
    let blocks = render("1. a\n2.\n3. b");
    let lists: Vec<&ContentBlock> = blocks.iter().filter(|b| matches!(b, ContentBlock::List { .. })).collect();
    assert_eq!(lists.len(), 1);
    if let ContentBlock::List { items, .. } = lists[0] {
        assert_eq!(items.len(), 2);
        assert_eq!(item_text(&items[0]), "a");
        assert_eq!(item_text(&items[1]), "b");
    }
}

#[test]
fn each_line_is_its_runs_joined() {
    let joined = |runs: &Vec<Span>| runs.iter().map(|r| r.content.as_str()).collect::<String>();
    let blocks = render("**Bold** and `code`  \nnext *line*\n\n> a ~~quote~~\n\n- [x] done **now**\n");
    let mut seen = 0;
    for block in &blocks {
        let (text, spans) = match block {
            ContentBlock::Paragraph { text, spans } | ContentBlock::BlockQuote { text, spans } => (text, spans),
            ContentBlock::Heading { text, spans, .. } => (text, spans),
            ContentBlock::TaskList { items } => (&items[0].text, &items[0].spans),
            _ => continue,
        };
        assert_eq!(text.len(), spans.len());
        for (line, runs) in text.iter().zip(spans) {
            assert_eq!(*line, joined(runs));
        }
        seen += 1;
    }
    assert_eq!(seen, 2);
    assert_eq!(blocks.iter().map(block_type).collect::<Vec<_>>(), vec!["Paragraph", "BlockQuote", "List"]);
    if let ContentBlock::Paragraph { text, .. } = &blocks[0] {
        assert_eq!(text, &vec!["Bold and code".to_string(), String::new(), "next line".to_string()]);
    } else {
        panic!("Expected Paragraph");
    }
}

#[test]
fn list_of_empty_items_gives_no_block() {
    let blocks = render("-\n-\n");
    assert!(blocks.iter().all(|b| !matches!(b, ContentBlock::List { .. })));
    for b in render("- a\n-\n- b\n") {
        if let ContentBlock::List { items, .. } = b {
            assert_eq!(items.len(), 2);
        }
    }
}
