//! Markdown content blocks and the rows each one takes on screen at a
//! given width.

use vstd::prelude::*;
use crate::text::chars_of;
use crate::markdown::{newline_pieces, text_lines};
use crate::wrap::{line_count, word_wrap_height, word_wrap_rows, wrapped_line_count, words};
use crate::columns::{cell_views, col_widths, compute_col_widths, min_widths, row_views, sum};

verus! {

/// How a run of text is shown.
#[derive(Clone, Copy, Debug, PartialEq, Eq, Structural)]
pub enum SpanStyle {
    /// Body text, or heading text when `heading`, with the emphasis in
    /// force where it stands.
    Text { bold: bool, italic: bool, strikethrough: bool, heading: bool },
    /// Inline code.
    Code,
    /// A link, shown as its text followed by its address.
    Link,
}

/// A run of text in one style.
pub struct Span {
    pub content: String,
    pub style: SpanStyle,
}

/// A list item with optional nested children. Its text is held line by
/// line, as plain characters (`text`) and as the styled runs that make up
/// each line (`spans`).
pub struct ListItem {
    pub text: Vec<String>,
    pub spans: Vec<Vec<Span>>,
    pub children: Vec<ListItem>,
}

/// A task list item with checkbox state.
pub struct TaskListItem {
    pub checked: bool,
    pub text: Vec<String>,
    pub spans: Vec<Vec<Span>>,
}

/// A structured markdown content block. Text is held line by line, as
/// plain characters (`text`) and as the styled runs of each line (`spans`).
#[allow(inconsistent_fields)]
pub enum ContentBlock {
    Paragraph { text: Vec<String>, spans: Vec<Vec<Span>> },
    Heading { level: u8, text: Vec<String>, spans: Vec<Vec<Span>> },
    CodeBlock { lang: String, content: String },
    Table { headers: Vec<String>, rows: Vec<Vec<String>> },
    List { ordered: bool, start: u32, items: Vec<ListItem> },
    TaskList { items: Vec<TaskListItem> },
    BlockQuote { text: Vec<String>, spans: Vec<Vec<Span>> },
    Rule,
}

/// Sum of the word-wrapped rows of each line.
pub open spec fn lines_rows(lines: Seq<Seq<char>>, width: nat) -> nat
    decreases lines.len(),
{
    if lines.len() == 0 {
        0
    } else {
        lines_rows(lines.drop_last(), width) + word_wrap_rows(lines.last(), width)
    }
}

/// Rows a multi-line text takes: one per line at width 0, otherwise the
/// word-wrapped rows of every line (at least one).
pub open spec fn text_rows(lines: Seq<Seq<char>>, width: nat) -> nat {
    if width == 0 {
        lines.len()
    } else {
        let t = lines_rows(lines, width);
        if t == 0 {
            1
        } else {
            t
        }
    }
}

/// Rows taken by a list item and, below it, its children.
pub open spec fn item_rows(item: ListItem, width: nat) -> nat
    decreases item,
{
    let own: nat = if item.text@.len() == 0 {
        1
    } else {
        text_rows(cell_views(item.text@), if width >= 4 { (width - 4) as nat } else { 0 }) + 1
    };
    own + children_rows(item, item.children@.len() as int, width)
}

/// Rows taken by the first `k` children of `item`.
pub open spec fn children_rows(item: ListItem, k: int, width: nat) -> nat
    decreases item, k,
{
    if k <= 0 || k > item.children@.len() {
        0
    } else {
        children_rows(item, k - 1, width) + item_rows(item.children@[k - 1], width)
    }
}


/// Number of lines `str::lines` yields for `s`: lines end at `\n`, and a
/// final line without one still counts.
pub open spec fn newline_count(s: Seq<char>, k: int) -> nat
    decreases k,
{
    if k <= 0 {
        0
    } else {
        newline_count(s, k - 1) + if s[k - 1] == '\n' {
            1nat
        } else {
            0nat
        }
    }
}

/// Lines of `s` as `str::lines` counts them.
pub open spec fn str_line_count(s: Seq<char>) -> nat {
    if s.len() == 0 {
        0
    } else if s.last() == '\n' {
        newline_count(s, s.len() as int)
    } else {
        newline_count(s, s.len() as int) + 1
    }
}

/// Longest row among the first `k` rows.
pub open spec fn max_row_len(rows: Seq<Seq<Seq<char>>>, k: int) -> nat
    decreases k,
{
    if k <= 0 {
        0
    } else {
        let m = max_row_len(rows, k - 1);
        if rows[k - 1].len() > m {
            rows[k - 1].len()
        } else {
            m
        }
    }
}

/// Tallest of the first `k` cells of a row, each wrapped at its column width.
pub open spec fn cells_rows(cells: Seq<Seq<char>>, cw: Seq<nat>, k: int) -> nat
    decreases k,
{
    if k <= 0 {
        0
    } else {
        let m = cells_rows(cells, cw, k - 1);
        let c = line_count(cells[k - 1], cw[k - 1]);
        if c > m {
            c
        } else {
            m
        }
    }
}

/// Rows a table row takes: its tallest cell among the first `n` columns
/// (one when it has no cell there).
pub open spec fn table_row_rows(cells: Seq<Seq<char>>, cw: Seq<nat>, n: nat) -> nat {
    let k = if cells.len() < n {
        cells.len()
    } else {
        n
    };
    if k == 0 {
        1
    } else {
        cells_rows(cells, cw, k as int)
    }
}

/// Rows taken by the first `k` data rows.
pub open spec fn data_rows(rows: Seq<Seq<Seq<char>>>, cw: Seq<nat>, n: nat, k: int) -> nat
    decreases k,
{
    if k <= 0 {
        0
    } else {
        data_rows(rows, cw, n, k - 1) + table_row_rows(rows[k - 1], cw, n)
    }
}

/// Number of columns of a table.
pub open spec fn table_cols(headers: Seq<Seq<char>>, rows: Seq<Seq<Seq<char>>>) -> nat {
    let r = max_row_len(rows, rows.len() as int);
    if headers.len() > r {
        headers.len()
    } else {
        r
    }
}

/// Width left for cell text once the borders (`3n + 1`) are drawn.
pub open spec fn table_avail(n: nat, width: nat) -> nat {
    if width >= 3 * n + 1 {
        (width - (3 * n + 1)) as nat
    } else {
        0
    }
}

/// Rows a table takes: borders, header, separator, data rows and the
/// separators between them, and a blank row; one row when it is empty or
/// too narrow to draw.
pub open spec fn table_rows(headers: Seq<Seq<char>>, rows: Seq<Seq<Seq<char>>>, width: nat) -> nat {
    let n = table_cols(headers, rows);
    if (headers.len() == 0 && rows.len() == 0) || n == 0 {
        1
    } else {
        let avail = table_avail(n, width);
        if avail < n {
            1
        } else {
            let cw = col_widths(headers, rows, avail, n);
            4 + table_row_rows(headers, cw, n) + data_rows(rows, cw, n, rows.len() as int) + (if rows.len()
                > 0 {
                (rows.len() - 1) as nat
            } else {
                0nat
            })
        }
    }
}

/// Sizes under which drawing a table needs no more than machine integers.
pub open spec fn table_sizes_fit(headers: Seq<Seq<char>>, rows: Seq<Seq<Seq<char>>>) -> bool {
    let n = table_cols(headers, rows);
    &&& 3 * n + 1 <= usize::MAX
    &&& sum(min_widths(headers, rows, n)) + n <= usize::MAX
}

/// Rows taken by the first `k` task items.
pub open spec fn tasks_rows(items: Seq<TaskListItem>, width: nat, k: int) -> nat
    decreases k,
{
    if k <= 0 {
        0
    } else {
        tasks_rows(items, width, k - 1) + text_rows(
            cell_views(items[k - 1].text@),
            if width >= 3 { (width - 3) as nat } else { 0 },
        ) + 1
    }
}

/// Rows taken by the first `k` list items.
pub open spec fn items_rows(items: Seq<ListItem>, width: nat, k: int) -> nat
    decreases k,
{
    if k <= 0 {
        0
    } else {
        items_rows(items, width, k - 1) + item_rows(items[k - 1], width)
    }
}

/// Rows a content block takes at `width`, including the blank row after it.
pub open spec fn block_rows(b: ContentBlock, width: nat) -> nat {
    match b {
        ContentBlock::Paragraph { text, .. } => text_rows(cell_views(text@), width) + 1,
        ContentBlock::Heading { text, .. } => text_rows(cell_views(text@), width) + 1,
        ContentBlock::CodeBlock { content, .. } => 4 + str_line_count(content@),
        ContentBlock::Table { headers, rows } => table_rows(cell_views(headers@), row_views(rows@), width),
        ContentBlock::List { items, .. } => items_rows(items@, width, items@.len() as int),
        ContentBlock::TaskList { items } => tasks_rows(items@, width, items@.len() as int),
        ContentBlock::BlockQuote { text, .. } => text_rows(
            cell_views(text@),
            if width >= 2 { (width - 2) as nat } else { 0 },
        ) + 1,
        ContentBlock::Rule => 2,
    }
}

proof fn lemma_lines_rows_prefix(lines: Seq<Seq<char>>, width: nat, k: int)
    requires
        0 <= k <= lines.len(),
    ensures
        lines_rows(lines.take(k), width) <= lines_rows(lines, width),
    decreases lines.len() - k,
{
    if k < lines.len() {
        lemma_lines_rows_prefix(lines, width, k + 1);
        assert(lines.take(k + 1).drop_last() =~= lines.take(k));
    } else {
        assert(lines.take(k) =~= lines);
    }
}

/// Rows a multi-line text takes at `width`: one per line at width 0,
/// otherwise the word-wrapped rows of every line, at least one.
pub fn wrapped_height(text: &Vec<String>, width: usize) -> (rows: usize)
    requires
        text_rows(cell_views(text@), width as nat) <= usize::MAX,
    ensures
        rows as nat == text_rows(cell_views(text@), width as nat),
{
    if width == 0 {
        return text.len();
    }
    let ghost lv = cell_views(text@);
    let mut total: usize = 0;
    let mut k: usize = 0;
    while k < text.len()
        invariant
            k <= text@.len(),
            width > 0,
            lv == cell_views(text@),
            total as nat == lines_rows(lv.take(k as int), width as nat),
            text_rows(lv, width as nat) <= usize::MAX,
        decreases text@.len() - k,
    {
        proof {
            assert(lv.take(k as int + 1).drop_last() =~= lv.take(k as int));
            lemma_lines_rows_prefix(lv, width as nat, k as int + 1);
            assert(lv[k as int] == text@[k as int]@);
        }
        let r = word_wrap_height(text[k].as_str(), width);
        total = total + r;
        k = k + 1;
    }
    proof {
        assert(lv.take(text@.len() as int) =~= lv);
    }
    if total == 0 {
        1
    } else {
        total
    }
}


proof fn lemma_children_rows_mono(item: ListItem, j: int, k: int, width: nat)
    requires
        0 <= j <= k <= item.children@.len(),
    ensures
        children_rows(item, j, width) <= children_rows(item, k, width),
    decreases k - j,
{
    if j < k {
        lemma_children_rows_mono(item, j, k - 1, width);
    }
}

/// Rows a list item takes at `width`: its text (indented by four columns,
/// a bare bullet when the text has no line) plus a blank row, then its
/// children at the same width.
pub fn list_item_height(item: &ListItem, width: usize) -> (rows: usize)
    requires
        item_rows(*item, width as nat) <= usize::MAX,
    ensures
        rows as nat == item_rows(*item, width as nat),
    decreases item,
{
    let text_width = if width >= 4 {
        width - 4
    } else {
        0
    };
    let own: usize = if item.text.len() == 0 {
        1
    } else {
        proof {
            lemma_children_rows_mono(*item, 0, item.children@.len() as int, width as nat);
        }
        wrapped_height(&item.text, text_width) + 1
    };
    let mut total = own;
    let mut k: usize = 0;
    while k < item.children.len()
        invariant
            k <= item.children@.len(),
            total as nat == own as nat + children_rows(*item, k as int, width as nat),
            own as nat + children_rows(*item, item.children@.len() as int, width as nat)
                == item_rows(*item, width as nat),
            item_rows(*item, width as nat) <= usize::MAX,
        decreases item.children@.len() - k,
    {
        proof {
            lemma_children_rows_mono(*item, k as int + 1, item.children@.len() as int, width as nat);
        }
        let child = &item.children[k];
        let h = list_item_height(child, width);
        total = total + h;
        k = k + 1;
    }
    total
}

proof fn lemma_newline_count_le(s: Seq<char>, k: int)
    requires
        0 <= k <= s.len(),
    ensures
        newline_count(s, k) <= k,
    decreases k,
{
    if k > 0 {
        lemma_newline_count_le(s, k - 1);
    }
}

/// Count the lines of `s` as `str::lines` does.
pub fn count_lines(s: &str) -> (n: usize)
    ensures
        n as nat == str_line_count(s@),
{
    let cs = chars_of(s);
    let mut n: usize = 0;
    let mut k: usize = 0;
    while k < cs.len()
        invariant
            cs@ == s@,
            k <= cs@.len(),
            n as nat == newline_count(s@, k as int),
            n <= k,
        decreases cs@.len() - k,
    {
        if cs[k] == '\n' {
            n = n + 1;
        }
        k = k + 1;
    }
    if cs.len() == 0 {
        0
    } else if cs[cs.len() - 1] == '\n' {
        n
    } else {
        proof {
            lemma_newline_count_le(s@, cs@.len() - 1);
        }
        n + 1
    }
}


proof fn lemma_data_rows_mono(rows: Seq<Seq<Seq<char>>>, cw: Seq<nat>, n: nat, j: int, k: int)
    requires
        0 <= j <= k <= rows.len(),
    ensures
        data_rows(rows, cw, n, j) <= data_rows(rows, cw, n, k),
    decreases k - j,
{
    if j < k {
        lemma_data_rows_mono(rows, cw, n, j, k - 1);
    }
}

/// Tallest of the first `n` cells of a row at the given column widths
/// (one when the row has no cell there).
fn row_height(cells: &Vec<String>, cw: &Vec<usize>, n: usize, ghost_cw: Ghost<Seq<nat>>) -> (h: usize)
    requires
        cw@.len() == n,
        forall|i: int| 0 <= i < n ==> cw@[i] as nat == ghost_cw@[i],
    ensures
        h as nat == table_row_rows(cell_views(cells@), ghost_cw@, n as nat),
        h >= 1,
{
    let k = if cells.len() < n {
        cells.len()
    } else {
        n
    };
    if k == 0 {
        return 1;
    }
    let ghost cv = cell_views(cells@);
    let mut m: usize = 0;
    let mut i: usize = 0;
    while i < k
        invariant
            i <= k,
            k <= cells@.len(),
            k <= n,
            cw@.len() == n,
            cv == cell_views(cells@),
            forall|q: int| 0 <= q < n ==> cw@[q] as nat == ghost_cw@[q],
            m as nat == cells_rows(cv, ghost_cw@, i as int),
            i > 0 ==> m >= 1,
        decreases k - i,
    {
        let c = wrapped_line_count(cells[i].as_str(), cw[i]);
        proof {
            assert(cv[i as int] == cells@[i as int]@);
        }
        if c > m {
            m = c;
        }
        i = i + 1;
    }
    m
}

/// Rows a table takes at `width`: top border, header rows, separator, the
/// data rows with one separator between each two, bottom border and a blank
/// row; one row when the table is empty or too narrow for its borders.
pub fn table_height(headers: &Vec<String>, rows: &Vec<Vec<String>>, width: usize) -> (h: usize)
    requires
        table_sizes_fit(cell_views(headers@), row_views(rows@)),
        table_rows(cell_views(headers@), row_views(rows@), width as nat) <= usize::MAX,
    ensures
        h as nat == table_rows(cell_views(headers@), row_views(rows@), width as nat),
{
    let ghost hv = cell_views(headers@);
    let ghost rv = row_views(rows@);
    if headers.len() == 0 && rows.len() == 0 {
        return 1;
    }
    let mut r: usize = 0;
    let mut k: usize = 0;
    while k < rows.len()
        invariant
            k <= rows@.len(),
            rv == row_views(rows@),
            r as nat == max_row_len(rv, k as int),
        decreases rows@.len() - k,
    {
        proof {
            assert(rv[k as int].len() == rows@[k as int]@.len());
        }
        if rows[k].len() > r {
            r = rows[k].len();
        }
        k = k + 1;
    }
    let n = if headers.len() > r {
        headers.len()
    } else {
        r
    };
    if n == 0 {
        return 1;
    }
    let border = 3 * n + 1;
    let avail = if width >= border {
        width - border
    } else {
        0
    };
    if avail < n {
        return 1;
    }
    let cw = compute_col_widths(headers.as_slice(), rows.as_slice(), avail, n);
    let ghost cws = col_widths(hv, rv, avail as nat, n as nat);
    let header_h = row_height(headers, &cw, n, Ghost(cws));
    let mut data: usize = 0;
    let mut j: usize = 0;
    while j < rows.len()
        invariant
            j <= rows@.len(),
            rv == row_views(rows@),
            cw@.len() == n,
            forall|i: int| 0 <= i < n ==> cw@[i] as nat == cws[i],
            data as nat == data_rows(rv, cws, n as nat, j as int),
            data_rows(rv, cws, n as nat, rows@.len() as int) <= usize::MAX,
        decreases rows@.len() - j,
    {
        proof {
            lemma_data_rows_mono(rv, cws, n as nat, j as int + 1, rows@.len() as int);
            assert(rv[j as int] == cell_views(rows@[j as int]@));
        }
        let h = row_height(&rows[j], &cw, n, Ghost(cws));
        data = data + h;
        j = j + 1;
    }
    let seps = if rows.len() > 0 {
        rows.len() - 1
    } else {
        0
    };
    4 + header_h + data + seps
}

proof fn lemma_items_rows_mono(items: Seq<ListItem>, width: nat, j: int, k: int)
    requires
        0 <= j <= k <= items.len(),
    ensures
        items_rows(items, width, j) <= items_rows(items, width, k),
    decreases k - j,
{
    if j < k {
        lemma_items_rows_mono(items, width, j, k - 1);
    }
}

proof fn lemma_tasks_rows_mono(items: Seq<TaskListItem>, width: nat, j: int, k: int)
    requires
        0 <= j <= k <= items.len(),
    ensures
        tasks_rows(items, width, j) <= tasks_rows(items, width, k),
    decreases k - j,
{
    if j < k {
        lemma_tasks_rows_mono(items, width, j, k - 1);
    }
}

/// Rows `block` takes at `width`, including the blank row after it:
/// wrapped text plus one for paragraphs and headings, four plus the code
/// lines for code blocks, the table layout for tables, the items for
/// lists, text indented by three for task items and by two for quotes,
/// and two for a rule.
pub fn content_block_height(block: &ContentBlock, width: usize) -> (h: usize)
    requires
        block_rows(*block, width as nat) <= usize::MAX,
        block matches ContentBlock::Table { headers, rows } ==> table_sizes_fit(
            cell_views(headers@),
            row_views(rows@),
        ),
    ensures
        h as nat == block_rows(*block, width as nat),
{
    match block {
        ContentBlock::Paragraph { text, .. } => wrapped_height(text, width) + 1,
        ContentBlock::Heading { text, .. } => wrapped_height(text, width) + 1,
        ContentBlock::CodeBlock { content, .. } => {
            proof {
                assert(str_line_count(content@) + 4 <= usize::MAX);
            }
            4 + count_lines(content.as_str())
        },
        ContentBlock::Table { headers, rows } => table_height(headers, rows, width),
        ContentBlock::List { items, .. } => {
            let mut total: usize = 0;
            let mut k: usize = 0;
            while k < items.len()
                invariant
                    k <= items@.len(),
                    total as nat == items_rows(items@, width as nat, k as int),
                    items_rows(items@, width as nat, items@.len() as int) <= usize::MAX,
                decreases items@.len() - k,
            {
                proof {
                    lemma_items_rows_mono(items@, width as nat, k as int + 1, items@.len() as int);
                }
                let h = list_item_height(&items[k], width);
                total = total + h;
                k = k + 1;
            }
            total
        },
        ContentBlock::TaskList { items } => {
            let tw = if width >= 3 {
                width - 3
            } else {
                0
            };
            let mut total: usize = 0;
            let mut k: usize = 0;
            while k < items.len()
                invariant
                    k <= items@.len(),
                    tw as nat == (if width >= 3 { (width - 3) as nat } else { 0 }),
                    total as nat == tasks_rows(items@, width as nat, k as int),
                    tasks_rows(items@, width as nat, items@.len() as int) <= usize::MAX,
                decreases items@.len() - k,
            {
                proof {
                    lemma_tasks_rows_mono(items@, width as nat, k as int + 1, items@.len() as int);
                }
                let h = wrapped_height(&items[k].text, tw);
                total = total + h + 1;
                k = k + 1;
            }
            total
        },
        ContentBlock::BlockQuote { text, .. } => {
            let tw = if width >= 2 {
                width - 2
            } else {
                0
            };
            wrapped_height(text, tw) + 1
        },
        ContentBlock::Rule => 2,
    }
}

impl ContentBlock {
    /// Rows this block takes at `width` (see [`content_block_height`]).
    pub fn height(&self, width: usize) -> (h: usize)
        requires
            block_rows(*self, width as nat) <= usize::MAX,
            self matches ContentBlock::Table { headers, rows } ==> table_sizes_fit(
                cell_views(headers@),
                row_views(rows@),
            ),
        ensures
            h as nat == block_rows(*self, width as nat),
    {
        content_block_height(self, width)
    }
}

proof fn lemma_pieces_count(s: Seq<char>)
    ensures
        newline_pieces(s).len() == newline_count(s, s.len() as int) + 1,
        (newline_pieces(s).last().len() == 0) == (s.len() == 0 || s.last() == '\n'),
    decreases s.len(),
{
    if s.len() > 0 {
        let d = s.drop_last();
        lemma_pieces_count(d);
        assert forall|k: int| 0 <= k <= d.len() implies newline_count(d, k) == newline_count(s, k) by {
            lemma_newline_count_prefix(d, s, k);
        }
    }
}

proof fn lemma_newline_count_prefix(a: Seq<char>, b: Seq<char>, k: int)
    requires
        0 <= k <= a.len(),
        k <= b.len(),
        forall|i: int| 0 <= i < k ==> a[i] == b[i],
    ensures
        newline_count(a, k) == newline_count(b, k),
    decreases k,
{
    if k > 0 {
        lemma_newline_count_prefix(a, b, k - 1);
    }
}

/// Law: the line count is the number of lines `str::lines` yields, as the
/// Markdown reader splits them (at each newline, with no empty line after
/// a final newline).
pub proof fn law_line_count_is_lines_split(s: Seq<char>)
    ensures
        str_line_count(s) == text_lines(s).len(),
{
    lemma_pieces_count(s);
}

proof fn lemma_newline_count_concat(a: Seq<char>, b: Seq<char>, k: int)
    requires
        0 <= k <= b.len(),
    ensures
        newline_count(a + b, a.len() + k) == newline_count(a, a.len() as int) + newline_count(b, k),
    decreases k,
{
    if k == 0 {
        lemma_newline_count_prefix(a + b, a, a.len() as int);
    } else {
        lemma_newline_count_concat(a, b, k - 1);
        assert((a + b)[a.len() + k - 1] == b[k - 1]);
    }
}

/// Law: text after a line ending adds its own lines, so a text's lines
/// are those of its parts when the first part ends a line (or is empty).
pub proof fn law_line_count_adds_after_line_end(a: Seq<char>, b: Seq<char>)
    requires
        a.len() == 0 || a.last() == '\n',
    ensures
        str_line_count(a + b) == str_line_count(a) + str_line_count(b),
{
    lemma_newline_count_concat(a, b, b.len() as int);
    if a.len() == 0 {
        assert(a + b =~= b);
    }
    if b.len() > 0 {
        assert((a + b).last() == b.last());
    } else {
        assert(a + b =~= a);
    }
}

/// Law: a final newline closes the last line rather than opening a new
/// one: a non-empty text not ending in a newline has as many lines with
/// one added, and one more line than the text before its last line.
pub proof fn law_final_newline_adds_no_line(s: Seq<char>)
    requires
        s.len() > 0,
        s.last() != '\n',
    ensures
        str_line_count(s + seq!['\n']) == str_line_count(s),
        str_line_count(s) >= 1,
{
    let t = s + seq!['\n'];
    lemma_newline_count_prefix(t, s, s.len() as int);
    assert(t.last() == '\n');
    assert(t[s.len() as int] == '\n');
}

#[verifier::spinoff_prover]
proof fn lemma_cells_rows_max(cells: Seq<Seq<char>>, cw: Seq<nat>, k: int)
    requires
        0 <= k,
    ensures
        forall|i: int| 0 <= i < k ==> cells_rows(cells, cw, k) >= #[trigger] line_count(cells[i], cw[i]),
        k > 0 ==> exists|i: int| 0 <= i < k && cells_rows(cells, cw, k) == #[trigger] line_count(cells[i], cw[i]),
    decreases k,
{
    if k > 0 {
        lemma_cells_rows_max(cells, cw, k - 1);
        let c = line_count(cells[k - 1], cw[k - 1]);
        let m = cells_rows(cells, cw, k - 1);
        assert(cells_rows(cells, cw, k) == if c > m { c } else { m });
        if cells_rows(cells, cw, k) == c {
            assert(0 <= k - 1 < k && cells_rows(cells, cw, k) == line_count(cells[k - 1], cw[k - 1]));
        } else {
            assert(k > 1);
            let j = choose|i: int| 0 <= i < k - 1 && m == #[trigger] line_count(cells[i], cw[i]);
            assert(0 <= j < k && cells_rows(cells, cw, k) == line_count(cells[j], cw[j]));
        }
    }
}

/// Law: a table row is as tall as its tallest cell: at least the wrapped
/// height of every cell among the first `n` columns (each at its column's
/// width), and equal to one of them; a row with no cell there takes one
/// line.
pub proof fn law_row_is_tallest_cell(cells: Seq<Seq<char>>, cw: Seq<nat>, n: nat)
    ensures
        forall|i: int| 0 <= i < n && i < cells.len() ==> table_row_rows(cells, cw, n) >= #[trigger] line_count(cells[i], cw[i]),
        (n > 0 && cells.len() > 0) ==> exists|i: int| 0 <= i < n && i < cells.len() && table_row_rows(cells, cw, n) == #[trigger] line_count(cells[i], cw[i]),
        (n == 0 || cells.len() == 0) ==> table_row_rows(cells, cw, n) == 1,
{
    let k: int = if cells.len() < n { cells.len() as int } else { n as int };
    lemma_cells_rows_max(cells, cw, k);
}

} // verus!
