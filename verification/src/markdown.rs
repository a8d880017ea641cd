//! Markdown events to content blocks: headings, paragraphs, code blocks,
//! (nested) lists, task lists, block quotes, tables and rules. Each line of
//! text is kept both as its characters and as its styled runs (bold,
//! italic and struck-out text, heading text, inline code, links).

use vstd::prelude::*;
use crate::blocks::{ContentBlock, ListItem, Span, SpanStyle, TaskListItem};
use crate::agent::join_lines;
use crate::text::{chars_of, is_white_space, is_white_space_char, lead_end, string_from_chars};
use vstd::string::StringExecFns;

verus! {

broadcast use vstd::string::group_string_axioms;

/// A Markdown parse event, as the parser reports it. Paragraph starts and
/// the events the blocks do not use arrive as `Other`.
pub enum MdEvent {
    StartHeading(u8),
    EndHeading,
    /// A code block starts, with its fence's language ("" when indented).
    StartCodeBlock(String),
    EndCodeBlock,
    /// A list starts; ordered lists give their first number.
    StartList(Option<u64>),
    /// A list ends; whether it was ordered.
    EndList(bool),
    StartItem,
    EndItem,
    TaskListMarker(bool),
    StartLink(String),
    EndLink,
    StartEmphasis,
    EndEmphasis,
    StartStrong,
    EndStrong,
    StartStrikethrough,
    EndStrikethrough,
    StartBlockQuote,
    EndBlockQuote,
    StartTable,
    EndTable,
    EndTableHead,
    EndTableRow,
    StartTableCell,
    EndTableCell,
    EndParagraph,
    Text(String),
    Code(String),
    SoftBreak,
    HardBreak,
    Rule,
    Other,
}

/// A list item as plain data: its lines, the styled runs of each line,
/// and its children.
pub struct ItemV {
    pub text: Seq<Seq<char>>,
    pub spans: Seq<Seq<(Seq<char>, SpanStyle)>>,
    pub children: Seq<ItemV>,
}

/// A content block as plain data. Text is given as its lines and the
/// styled runs of each line.
pub enum BlockV {
    Paragraph(Seq<Seq<char>>, Seq<Seq<(Seq<char>, SpanStyle)>>),
    Heading(u8, Seq<Seq<char>>, Seq<Seq<(Seq<char>, SpanStyle)>>),
    Code(Seq<char>, Seq<char>),
    Table(Seq<Seq<char>>, Seq<Seq<Seq<char>>>),
    List(bool, u32, Seq<ItemV>),
    TaskList(Seq<(bool, Seq<Seq<char>>, Seq<Seq<(Seq<char>, SpanStyle)>>)>),
    Quote(Seq<Seq<char>>, Seq<Seq<(Seq<char>, SpanStyle)>>),
    Rule,
}

/// A list being parsed: its first number and its items so far.
pub struct ListCtxV {
    pub start: u32,
    pub items: Seq<ItemV>,
}

/// The views of a list of strings.
pub open spec fn strs(v: Seq<String>) -> Seq<Seq<char>> {
    Seq::new(v.len(), |i: int| v[i]@)
}

/// A styled run as plain data.
pub open spec fn span_view(s: Span) -> (Seq<char>, SpanStyle) {
    (s.content@, s.style)
}

/// The views of the runs of a line.
pub open spec fn spans_view(v: Seq<Span>) -> Seq<(Seq<char>, SpanStyle)> {
    Seq::new(v.len(), |i: int| span_view(v[i]))
}

/// The views of the runs of each line.
pub open spec fn line_spans_view(v: Seq<Vec<Span>>) -> Seq<Seq<(Seq<char>, SpanStyle)>> {
    Seq::new(v.len(), |i: int| spans_view(v[i]@))
}

/// The texts of a line's runs.
pub open spec fn span_texts(s: Seq<(Seq<char>, SpanStyle)>) -> Seq<Seq<char>> {
    Seq::new(s.len(), |i: int| s[i].0)
}

/// The view of a list item.
pub open spec fn item_view(it: ListItem) -> ItemV
    decreases it,
{
    ItemV {
        text: strs(it.text@),
        spans: line_spans_view(it.spans@),
        children: Seq::new(
            it.children@.len(),
            |i: int|
                if 0 <= i < it.children@.len() {
                    item_view(it.children@[i])
                } else {
                    ItemV { text: Seq::empty(), spans: Seq::empty(), children: Seq::empty() }
                },
        ),
    }
}

/// The views of a list of items.
pub open spec fn items_view(v: Seq<ListItem>) -> Seq<ItemV> {
    Seq::new(v.len(), |i: int| item_view(v[i]))
}

/// The view of a task list item.
pub open spec fn task_view(t: TaskListItem) -> (bool, Seq<Seq<char>>, Seq<Seq<(Seq<char>, SpanStyle)>>) {
    (t.checked, strs(t.text@), line_spans_view(t.spans@))
}

/// The view of a block.
pub open spec fn block_view(b: ContentBlock) -> BlockV {
    match b {
        ContentBlock::Paragraph { text, spans } => BlockV::Paragraph(strs(text@), line_spans_view(spans@)),
        ContentBlock::Heading { level, text, spans } => BlockV::Heading(level, strs(text@), line_spans_view(spans@)),
        ContentBlock::CodeBlock { lang, content } => BlockV::Code(lang@, content@),
        ContentBlock::Table { headers, rows } => BlockV::Table(
            strs(headers@),
            Seq::new(rows@.len(), |i: int| strs(rows@[i]@)),
        ),
        ContentBlock::List { ordered, start, items } => BlockV::List(ordered, start, items_view(items@)),
        ContentBlock::TaskList { items } => BlockV::TaskList(
            Seq::new(items@.len(), |i: int| task_view(items@[i])),
        ),
        ContentBlock::BlockQuote { text, spans } => BlockV::Quote(strs(text@), line_spans_view(spans@)),
        ContentBlock::Rule => BlockV::Rule,
    }
}

/// The views of a list of blocks.
pub open spec fn blocks_view(v: Seq<ContentBlock>) -> Seq<BlockV> {
    Seq::new(v.len(), |i: int| block_view(v[i]))
}

/// The parser's state.
#[verifier::ext_equal]
pub struct MdState {
    pub blocks: Seq<BlockV>,
    pub spans: Seq<(Seq<char>, SpanStyle)>,
    pub lines: Seq<Seq<char>>,
    pub line_spans: Seq<Seq<(Seq<char>, SpanStyle)>>,
    pub bold: bool,
    pub italic: bool,
    pub strikethrough: bool,
    pub is_heading: bool,
    pub heading_level: u8,
    pub in_link: bool,
    pub link_url: Seq<char>,
    pub link_text: Seq<char>,
    pub in_block_quote: bool,
    pub in_code: bool,
    pub code_lang: Seq<char>,
    pub code_content: Seq<char>,
    pub in_table: bool,
    pub headers: Seq<Seq<char>>,
    pub rows: Seq<Seq<Seq<char>>>,
    pub row: Seq<Seq<char>>,
    pub cell: Seq<char>,
    pub in_cell: bool,
    pub lists: Seq<ListCtxV>,
    pub in_list: bool,
    pub in_task: bool,
    pub tasks: Seq<(bool, Seq<Seq<char>>, Seq<Seq<(Seq<char>, SpanStyle)>>)>,
    pub task_checked: bool,
}

/// The spans of a line, joined.
pub open spec fn concat(spans: Seq<Seq<char>>) -> Seq<char>
    decreases spans.len(),
{
    if spans.len() == 0 {
        Seq::empty()
    } else {
        concat(spans.drop_last()) + spans.last()
    }
}

/// Close the current line, if it has spans: its text is the runs' texts
/// joined, and its runs are kept beside it.
pub open spec fn flush_spans(s: MdState) -> MdState {
    if s.spans.len() > 0 {
        MdState {
            lines: s.lines.push(concat(span_texts(s.spans))),
            line_spans: s.line_spans.push(s.spans),
            spans: Seq::empty(),
            ..s
        }
    } else {
        s
    }
}

/// The state with no open lines.
pub open spec fn without_lines(s: MdState) -> MdState {
    MdState { lines: Seq::empty(), line_spans: Seq::empty(), ..s }
}

/// Close the current paragraph (or heading), if it has lines.
pub open spec fn flush_paragraph(s: MdState, heading: bool, level: u8) -> MdState {
    if s.lines.len() == 0 {
        s
    } else {
        let b = if heading {
            BlockV::Heading(level, s.lines, s.line_spans)
        } else {
            BlockV::Paragraph(s.lines, s.line_spans)
        };
        MdState { blocks: s.blocks.push(b), ..without_lines(s) }
    }
}

/// The style of body text at this point of the parse.
pub open spec fn text_style(s: MdState) -> SpanStyle {
    SpanStyle::Text { bold: s.bold, italic: s.italic, strikethrough: s.strikethrough, heading: s.is_heading }
}

/// Close the current line, then the current paragraph.
pub open spec fn flush_both(s: MdState) -> MdState {
    flush_paragraph(flush_spans(s), false, 0)
}

/// Whether a list item has something to show.
pub open spec fn item_kept(it: ItemV) -> bool {
    it.text.len() > 0 || it.children.len() > 0
}

/// The items with something to show, in order.
pub open spec fn kept_items(items: Seq<ItemV>) -> Seq<ItemV>
    decreases items.len(),
{
    if items.len() == 0 {
        Seq::empty()
    } else if item_kept(items.last()) {
        kept_items(items.drop_last()).push(items.last())
    } else {
        kept_items(items.drop_last())
    }
}

/// Replace the last item of the innermost list.
pub open spec fn with_last_item(s: MdState, it: ItemV) -> MdState {
    let ctx = s.lists.last();
    let ctx2 = ListCtxV { items: ctx.items.update(ctx.items.len() - 1, it), ..ctx };
    MdState { lists: s.lists.update(s.lists.len() - 1, ctx2), ..s }
}

/// The innermost list has a current item.
pub open spec fn has_last_item(s: MdState) -> bool {
    s.lists.len() > 0 && s.lists.last().items.len() > 0
}

/// The current item of the innermost list.
pub open spec fn last_item(s: MdState) -> ItemV {
    s.lists.last().items.last()
}

/// The state after one event.
pub open spec fn md_step(s: MdState, e: MdEvent) -> MdState {
    match e {
        MdEvent::StartHeading(l) => MdState { is_heading: true, heading_level: l, ..flush_spans(s) },
        MdEvent::EndHeading => {
            let t = flush_spans(s);
            MdState { is_heading: false, ..flush_paragraph(t, true, t.heading_level) }
        },
        MdEvent::StartCodeBlock(lang) => MdState {
            in_code: true,
            code_content: Seq::empty(),
            code_lang: lang@,
            ..flush_both(s)
        },
        MdEvent::EndCodeBlock => MdState {
            in_code: false,
            blocks: s.blocks.push(BlockV::Code(s.code_lang, s.code_content)),
            code_lang: Seq::empty(),
            code_content: Seq::empty(),
            ..s
        },
        MdEvent::StartList(start) => {
            let t = flush_spans(s);
            let t2 = if t.in_list {
                if has_last_item(t) {
                    without_lines(with_last_item(t, ItemV { text: t.lines, spans: t.line_spans, ..last_item(t) }))
                } else {
                    t
                }
            } else {
                flush_paragraph(t, false, 0)
            };
            let first = match start {
                Some(n) => n as u32,
                None => 1u32,
            };
            MdState { lists: t2.lists.push(ListCtxV { start: first, items: Seq::empty() }), in_list: true, ..t2 }
        },
        MdEvent::EndList(ordered) => {
            if s.lists.len() == 0 {
                s
            } else {
                let ctx = s.lists.last();
                let items = kept_items(ctx.items);
                let t = MdState { lists: s.lists.drop_last(), ..s };
                if t.lists.len() == 0 {
                    if items.len() == 0 {
                        MdState { in_list: false, ..t }
                    } else {
                        MdState {
                            blocks: t.blocks.push(BlockV::List(ordered, if ordered { ctx.start } else { 1 }, items)),
                            in_list: false,
                            ..t
                        }
                    }
                } else if has_last_item(t) && items.len() > 0 {
                    with_last_item(t, ItemV { children: last_item(t).children + items, ..last_item(t) })
                } else {
                    t
                }
            }
        },
        MdEvent::StartItem => {
            let t = flush_spans(s);
            if t.lists.len() > 0 {
                let ctx = t.lists.last();
                let ctx2 = ListCtxV {
                    items: ctx.items.push(ItemV { text: Seq::empty(), spans: Seq::empty(), children: Seq::empty() }),
                    ..ctx
                };
                MdState { lists: t.lists.update(t.lists.len() - 1, ctx2), ..t }
            } else {
                t
            }
        },
        MdEvent::EndItem => {
            if has_last_item(s) {
                let t = flush_spans(s);
                if t.lines.len() > 0 {
                    without_lines(
                        with_last_item(
                            t,
                            ItemV {
                                text: last_item(t).text + t.lines,
                                spans: last_item(t).spans + t.line_spans,
                                ..last_item(t)
                            },
                        ),
                    )
                } else {
                    t
                }
            } else {
                s
            }
        },
        MdEvent::TaskListMarker(checked) => {
            if !s.in_task {
                MdState { in_task: true, tasks: Seq::empty(), task_checked: checked, ..flush_both(s) }
            } else {
                MdState { task_checked: checked, ..s }
            }
        },
        MdEvent::StartLink(url) => MdState { in_link: true, link_url: url@, link_text: Seq::empty(), ..s },
        MdEvent::EndLink => {
            if s.in_link {
                let shown = if s.link_text.len() == 0 { s.link_url } else { s.link_text };
                MdState {
                    in_link: false,
                    spans: s.spans.push((shown + " ("@ + s.link_url + ")"@, SpanStyle::Link)),
                    link_text: Seq::empty(),
                    link_url: Seq::empty(),
                    ..s
                }
            } else {
                s
            }
        },
        MdEvent::StartEmphasis => MdState { italic: true, ..s },
        MdEvent::EndEmphasis => MdState { italic: false, ..s },
        MdEvent::StartStrong => MdState { bold: true, ..s },
        MdEvent::EndStrong => MdState { bold: false, ..s },
        MdEvent::StartStrikethrough => MdState { strikethrough: true, ..s },
        MdEvent::EndStrikethrough => MdState { strikethrough: false, ..s },
        MdEvent::StartBlockQuote => MdState { in_block_quote: true, ..flush_both(s) },
        MdEvent::EndBlockQuote => {
            let t = flush_spans(s);
            if t.lines.len() > 0 {
                MdState {
                    blocks: t.blocks.push(BlockV::Quote(t.lines, t.line_spans)),
                    in_block_quote: false,
                    ..without_lines(t)
                }
            } else {
                MdState { in_block_quote: false, ..t }
            }
        },
        MdEvent::StartTable => MdState {
            in_table: true,
            headers: Seq::empty(),
            rows: Seq::empty(),
            row: Seq::empty(),
            cell: Seq::empty(),
            ..flush_both(s)
        },
        MdEvent::EndTable => {
            let rows = if s.row.len() > 0 { s.rows.push(s.row) } else { s.rows };
            MdState {
                blocks: s.blocks.push(BlockV::Table(s.headers, rows)),
                headers: Seq::empty(),
                rows: Seq::empty(),
                row: Seq::empty(),
                in_table: false,
                ..s
            }
        },
        MdEvent::EndTableHead => MdState { headers: s.row, row: Seq::empty(), ..s },
        MdEvent::EndTableRow => {
            if s.row.len() > 0 {
                MdState { rows: s.rows.push(s.row), row: Seq::empty(), ..s }
            } else {
                s
            }
        },
        MdEvent::StartTableCell => {
            if s.in_cell {
                MdState { cell: Seq::empty(), ..s }
            } else {
                MdState { in_cell: true, ..s }
            }
        },
        MdEvent::EndTableCell => MdState { in_cell: false, row: s.row.push(s.cell), cell: Seq::empty(), ..s },
        MdEvent::EndParagraph => {
            if s.in_list {
                s
            } else if s.in_task {
                let t = flush_spans(s);
                MdState { tasks: t.tasks.push((t.task_checked, t.lines, t.line_spans)), ..without_lines(t) }
            } else if s.in_block_quote {
                s
            } else {
                flush_both(s)
            }
        },
        MdEvent::Text(x) => {
            if s.in_code {
                MdState { code_content: s.code_content + x@, ..s }
            } else if s.in_table {
                if s.in_cell {
                    MdState { cell: s.cell + x@, ..s }
                } else {
                    s
                }
            } else if s.in_link {
                MdState { link_text: s.link_text + x@, ..s }
            } else {
                MdState { spans: s.spans.push((x@, text_style(s))), ..s }
            }
        },
        MdEvent::Code(x) => {
            if s.in_code {
                MdState { code_content: s.code_content + x@, ..s }
            } else if s.in_table && s.in_cell {
                MdState { cell: s.cell + x@, ..s }
            } else {
                MdState { spans: s.spans.push((x@, SpanStyle::Code)), ..s }
            }
        },
        MdEvent::SoftBreak => if s.in_code { s } else { flush_spans(s) },
        MdEvent::HardBreak => {
            if s.in_code {
                s
            } else {
                let t = flush_spans(s);
                MdState { lines: t.lines.push(Seq::empty()), line_spans: t.line_spans.push(Seq::empty()), ..t }
            }
        },
        MdEvent::Rule => {
            let t = flush_both(s);
            MdState { blocks: t.blocks.push(BlockV::Rule), ..t }
        },
        MdEvent::Other => s,
    }
}

/// The state before any event.
pub open spec fn md_start() -> MdState {
    MdState {
        blocks: Seq::empty(),
        spans: Seq::empty(),
        lines: Seq::empty(),
        line_spans: Seq::empty(),
        bold: false,
        italic: false,
        strikethrough: false,
        is_heading: false,
        heading_level: 0,
        in_link: false,
        link_url: Seq::empty(),
        link_text: Seq::empty(),
        in_block_quote: false,
        in_code: false,
        code_lang: Seq::empty(),
        code_content: Seq::empty(),
        in_table: false,
        headers: Seq::empty(),
        rows: Seq::empty(),
        row: Seq::empty(),
        cell: Seq::empty(),
        in_cell: false,
        lists: Seq::empty(),
        in_list: false,
        in_task: false,
        tasks: Seq::empty(),
        task_checked: false,
    }
}

/// The state after the first `k` events.
pub open spec fn md_run(events: Seq<MdEvent>, k: int) -> MdState
    decreases k,
{
    if k <= 0 {
        md_start()
    } else {
        md_step(md_run(events, k - 1), events[k - 1])
    }
}

/// The blocks once the events run out: the open line and paragraph are
/// closed (unless inside a list or task list), and collected task items
/// become a task list.
pub open spec fn md_finish(s: MdState) -> Seq<BlockV> {
    let t = flush_spans(s);
    let u = if t.lines.len() > 0 && !t.in_list && !t.in_task { flush_paragraph(t, false, 0) } else { t };
    if u.in_task && u.tasks.len() > 0 {
        u.blocks.push(BlockV::TaskList(u.tasks))
    } else {
        u.blocks
    }
}

/// The blocks of a sequence of events.
pub open spec fn md_blocks(events: Seq<MdEvent>) -> Seq<BlockV> {
    md_finish(md_run(events, events.len() as int))
}


/// A list being parsed.
pub struct ListContext {
    pub start: u32,
    pub items: Vec<ListItem>,
}

/// The view of a list being parsed.
pub open spec fn ctx_view(c: ListContext) -> ListCtxV {
    ListCtxV { start: c.start, items: items_view(c.items@) }
}

/// The parser.
pub struct MdParser {
    pub blocks: Vec<ContentBlock>,
    pub spans: Vec<Span>,
    pub lines: Vec<String>,
    pub line_spans: Vec<Vec<Span>>,
    pub bold: bool,
    pub italic: bool,
    pub strikethrough: bool,
    pub is_heading: bool,
    pub heading_level: u8,
    pub in_link: bool,
    pub link_url: String,
    pub link_text: String,
    pub in_block_quote: bool,
    pub in_code: bool,
    pub code_lang: String,
    pub code_content: String,
    pub in_table: bool,
    pub headers: Vec<String>,
    pub rows: Vec<Vec<String>>,
    pub row: Vec<String>,
    pub cell: String,
    pub in_cell: bool,
    pub lists: Vec<ListContext>,
    pub in_list: bool,
    pub in_task: bool,
    pub tasks: Vec<TaskListItem>,
    pub task_checked: bool,
}

impl View for MdParser {
    type V = MdState;

    open spec fn view(&self) -> MdState {
        MdState {
            blocks: blocks_view(self.blocks@),
            spans: spans_view(self.spans@),
            lines: strs(self.lines@),
            line_spans: line_spans_view(self.line_spans@),
            bold: self.bold,
            italic: self.italic,
            strikethrough: self.strikethrough,
            is_heading: self.is_heading,
            heading_level: self.heading_level,
            in_link: self.in_link,
            link_url: self.link_url@,
            link_text: self.link_text@,
            in_block_quote: self.in_block_quote,
            in_code: self.in_code,
            code_lang: self.code_lang@,
            code_content: self.code_content@,
            in_table: self.in_table,
            headers: strs(self.headers@),
            rows: Seq::new(self.rows@.len(), |i: int| strs(self.rows@[i]@)),
            row: strs(self.row@),
            cell: self.cell@,
            in_cell: self.in_cell,
            lists: Seq::new(self.lists@.len(), |i: int| ctx_view(self.lists@[i])),
            in_list: self.in_list,
            in_task: self.in_task,
            tasks: Seq::new(self.tasks@.len(), |i: int| task_view(self.tasks@[i])),
            task_checked: self.task_checked,
        }
    }
}

proof fn lemma_strs_push(v: Seq<String>, s: String)
    ensures
        strs(v.push(s)) == strs(v).push(s@),
{
    assert(strs(v.push(s)) =~= strs(v).push(s@));
}

proof fn lemma_item_children(it: ListItem)
    ensures
        item_view(it).children == items_view(it.children@),
        item_view(it).text == strs(it.text@),
        item_view(it).spans == line_spans_view(it.spans@),
{
    assert(item_view(it).children =~= items_view(it.children@));
}

/// The runs' texts joined into one string.
fn join_spans(spans: &Vec<Span>) -> (r: String)
    ensures
        r@ == concat(span_texts(spans_view(spans@))),
{
    let mut out = String::new();
    let mut i: usize = 0;
    while i < spans.len()
        invariant
            i <= spans@.len(),
            out@ == concat(span_texts(spans_view(spans@.take(i as int)))),
        decreases spans@.len() - i,
    {
        proof {
            assert(span_texts(spans_view(spans@.take(i as int + 1))).drop_last() =~= span_texts(spans_view(spans@.take(i as int))));
            assert(span_texts(spans_view(spans@.take(i as int + 1))).last() == spans@[i as int].content@);
        }
        out.append(spans[i].content.as_str());
        i = i + 1;
    }
    assert(spans@.take(spans@.len() as int) =~= spans@);
    out
}

impl MdParser {
    /// A parser that has seen nothing.
    pub fn new() -> (p: MdParser)
        ensures
            p@ == md_start(),
    {
        let p = MdParser {
            blocks: Vec::new(),
            spans: Vec::new(),
            lines: Vec::new(),
            line_spans: Vec::new(),
            bold: false,
            italic: false,
            strikethrough: false,
            is_heading: false,
            heading_level: 0,
            in_link: false,
            link_url: String::new(),
            link_text: String::new(),
            in_block_quote: false,
            in_code: false,
            code_lang: String::new(),
            code_content: String::new(),
            in_table: false,
            headers: Vec::new(),
            rows: Vec::new(),
            row: Vec::new(),
            cell: String::new(),
            in_cell: false,
            lists: Vec::new(),
            in_list: false,
            in_task: false,
            tasks: Vec::new(),
            task_checked: false,
        };
        assert(p@ =~= md_start());
        p
    }

    fn flush_spans(&mut self)
        ensures
            final(self)@ == flush_spans(old(self)@),
    {
        if self.spans.len() > 0 {
            let line = join_spans(&self.spans);
            let ghost before = self.lines@;
            let ghost before_spans = self.line_spans@;
            self.lines.push(line);
            let mut runs: Vec<Span> = Vec::new();
            std::mem::swap(&mut runs, &mut self.spans);
            self.line_spans.push(runs);
            proof {
                lemma_strs_push(before, line);
                assert(line_spans_view(self.line_spans@) =~= line_spans_view(before_spans).push(spans_view(runs@)));
                assert(spans_view(self.spans@) =~= Seq::<(Seq<char>, SpanStyle)>::empty());
                assert(self@ =~= flush_spans(old(self)@));
            }
        }
    }

    fn take_lines(&mut self) -> (r: (Vec<String>, Vec<Vec<Span>>))
        ensures
            strs(r.0@) == old(self)@.lines,
            line_spans_view(r.1@) == old(self)@.line_spans,
            final(self)@ == without_lines(old(self)@),
    {
        let mut lines: Vec<String> = Vec::new();
        std::mem::swap(&mut lines, &mut self.lines);
        let mut runs: Vec<Vec<Span>> = Vec::new();
        std::mem::swap(&mut runs, &mut self.line_spans);
        proof {
            assert(strs(self.lines@) =~= Seq::<Seq<char>>::empty());
            assert(line_spans_view(self.line_spans@) =~= Seq::<Seq<(Seq<char>, SpanStyle)>>::empty());
            assert(self@ =~= without_lines(old(self)@));
        }
        (lines, runs)
    }

    fn push_block(&mut self, b: ContentBlock)
        ensures
            final(self)@ == (MdState { blocks: old(self)@.blocks.push(block_view(b)), ..old(self)@ }),
    {
        self.blocks.push(b);
        proof {
            assert(blocks_view(self.blocks@) =~= blocks_view(old(self).blocks@).push(block_view(b)));
            assert(self@ =~= (MdState { blocks: old(self)@.blocks.push(block_view(b)), ..old(self)@ }));
        }
    }

    fn flush_paragraph(&mut self, heading: bool, level: u8)
        ensures
            final(self)@ == flush_paragraph(old(self)@, heading, level),
    {
        if self.lines.len() == 0 {
            return;
        }
        let (text, spans) = self.take_lines();
        let b = if heading {
            ContentBlock::Heading { level, text, spans }
        } else {
            ContentBlock::Paragraph { text, spans }
        };
        self.push_block(b);
        assert(self@ =~= flush_paragraph(old(self)@, heading, level));
    }

    fn flush_both(&mut self)
        ensures
            final(self)@ == flush_both(old(self)@),
    {
        self.flush_spans();
        self.flush_paragraph(false, 0);
    }
}


/// The views of a list of list contexts.
pub open spec fn lists_view(v: Seq<ListContext>) -> Seq<ListCtxV> {
    Seq::new(v.len(), |i: int| ctx_view(v[i]))
}

proof fn lemma_item_view_of(t: Vec<String>, sp: Vec<Vec<Span>>, ch: Vec<ListItem>)
    ensures
        item_view(ListItem { text: t, spans: sp, children: ch }) == (ItemV {
            text: strs(t@),
            spans: line_spans_view(sp@),
            children: items_view(ch@),
        }),
{
    lemma_item_children(ListItem { text: t, spans: sp, children: ch });
}

/// Keep the items with text or children, in order.
fn filter_items(items: Vec<ListItem>) -> (r: Vec<ListItem>)
    ensures
        items_view(r@) == kept_items(items_view(items@)),
{
    let ghost all = items@;
    let mut out: Vec<ListItem> = Vec::new();
    let mut rest = items;
    let ghost mut done: Seq<ListItem> = Seq::empty();
    proof {
        assert(done + rest@ =~= all);
        assert(items_view(done) =~= Seq::<ItemV>::empty());
    }
    while rest.len() > 0
        invariant
            done + rest@ == all,
            items_view(out@) == kept_items(items_view(done)),
        decreases rest@.len(),
    {
        let ghost before = rest@;
        let it = rest.remove(0);
        let ghost g = it;
        proof {
            assert(done.push(g) + rest@ =~= done + before);
            assert(items_view(done.push(g)).drop_last() =~= items_view(done));
            assert(items_view(done.push(g)).last() == item_view(g));
            lemma_item_children(g);
        }
        let keep = it.text.len() > 0 || it.children.len() > 0;
        if keep {
            let ghost o = out@;
            out.push(it);
            proof {
                assert(items_view(out@) =~= items_view(o).push(item_view(g)));
            }
        }
        proof {
            done = done.push(g);
        }
    }
    proof {
        assert(done =~= all);
    }
    out
}

impl MdParser {
    fn pop_last_item(&mut self) -> (r: (ListContext, ListItem))
        requires
            has_last_item(old(self)@),
        ensures
            lists_view(final(self).lists@) == old(self)@.lists.drop_last(),
            ctx_view(r.0).start == old(self)@.lists.last().start,
            items_view(r.0.items@) == old(self)@.lists.last().items.drop_last(),
            item_view(r.1) == last_item(old(self)@),
            final(self)@ == (MdState { lists: old(self)@.lists.drop_last(), ..old(self)@ }),
    {
        let ghost l0 = self.lists@;
        let mut ctx = self.lists.pop().unwrap();
        proof {
            assert(lists_view(self.lists@) =~= lists_view(l0).drop_last());
            assert(ctx_view(ctx) == lists_view(l0).last());
        }
        let ghost i0 = ctx.items@;
        let it = ctx.items.pop().unwrap();
        proof {
            assert(items_view(ctx.items@) =~= items_view(i0).drop_last());
            assert(self@ =~= (MdState { lists: old(self)@.lists.drop_last(), ..old(self)@ }));
        }
        (ctx, it)
    }

    fn push_back_item(&mut self, ctx: ListContext, it: ListItem)
        ensures
            final(self)@ == (MdState {
                lists: old(self)@.lists.push(ListCtxV { start: ctx.start, items: items_view(ctx.items@).push(item_view(it)) }),
                ..old(self)@
            }),
    {
        let mut ctx = ctx;
        let ghost i0 = ctx.items@;
        ctx.items.push(it);
        proof {
            assert(items_view(ctx.items@) =~= items_view(i0).push(item_view(it)));
        }
        let ghost l0 = self.lists@;
        self.lists.push(ctx);
        proof {
            assert(lists_view(self.lists@) =~= lists_view(l0).push(ctx_view(ctx)));
            assert(self@ =~= (MdState {
                lists: old(self)@.lists.push(ListCtxV { start: ctx.start, items: items_view(i0).push(item_view(it)) }),
                ..old(self)@
            }));
        }
    }

    /// Replace the current item's text.
    fn set_last_item_text(&mut self, text: Vec<String>, spans: Vec<Vec<Span>>)
        requires
            has_last_item(old(self)@),
        ensures
            final(self)@ == with_last_item(
                old(self)@,
                ItemV { text: strs(text@), spans: line_spans_view(spans@), ..last_item(old(self)@) },
            ),
    {
        let (ctx, it) = self.pop_last_item();
        proof {
            lemma_item_children(it);
        }
        let ListItem { text: _, spans: _, children } = it;
        let it2 = ListItem { text, spans, children };
        proof {
            lemma_item_view_of(text, spans, children);
        }
        self.push_back_item(ctx, it2);
        proof {
            let o = old(self)@;
            let c = o.lists.last();
            let ni = ItemV { text: strs(text@), spans: line_spans_view(spans@), ..last_item(o) };
            assert(c.items.drop_last().push(ni) =~= c.items.update(c.items.len() - 1, ni));
            assert(o.lists.drop_last().push(ListCtxV { start: c.start, items: c.items.update(c.items.len() - 1, ni) }) =~= o.lists.update(o.lists.len() - 1, ListCtxV { items: c.items.update(c.items.len() - 1, ni), ..c }));
            assert(self@ =~= with_last_item(o, ni));
        }
    }

    /// Append lines to the current item's text.
    fn extend_last_item_text(&mut self, more: Vec<String>, more_spans: Vec<Vec<Span>>)
        requires
            has_last_item(old(self)@),
        ensures
            final(self)@ == with_last_item(
                old(self)@,
                ItemV {
                    text: last_item(old(self)@).text + strs(more@),
                    spans: last_item(old(self)@).spans + line_spans_view(more_spans@),
                    ..last_item(old(self)@)
                },
            ),
    {
        let (ctx, it) = self.pop_last_item();
        proof {
            lemma_item_children(it);
        }
        let ListItem { text, spans, children } = it;
        let ghost t0 = text@;
        let ghost s0 = spans@;
        let mut text = text;
        let mut spans = spans;
        let mut more = more;
        let mut more_spans = more_spans;
        let ghost m0 = more@;
        let ghost ms0 = more_spans@;
        text.append(&mut more);
        spans.append(&mut more_spans);
        proof {
            assert(strs(text@) =~= strs(t0) + strs(m0));
            assert(line_spans_view(spans@) =~= line_spans_view(s0) + line_spans_view(ms0));
            lemma_item_view_of(text, spans, children);
        }
        let it2 = ListItem { text, spans, children };
        self.push_back_item(ctx, it2);
        proof {
            let o = old(self)@;
            let c = o.lists.last();
            let ni = ItemV {
                text: last_item(o).text + strs(m0),
                spans: last_item(o).spans + line_spans_view(ms0),
                ..last_item(o)
            };
            assert(c.items.drop_last().push(ni) =~= c.items.update(c.items.len() - 1, ni));
            assert(o.lists.drop_last().push(ListCtxV { start: c.start, items: c.items.update(c.items.len() - 1, ni) }) =~= o.lists.update(o.lists.len() - 1, ListCtxV { items: c.items.update(c.items.len() - 1, ni), ..c }));
            assert(self@ =~= with_last_item(o, ni));
        }
    }

    /// Append items to the current item's children.
    fn extend_last_item_children(&mut self, items: Vec<ListItem>)
        requires
            has_last_item(old(self)@),
        ensures
            final(self)@ == with_last_item(old(self)@, ItemV { children: last_item(old(self)@).children + items_view(items@), ..last_item(old(self)@) }),
    {
        let (ctx, it) = self.pop_last_item();
        proof {
            lemma_item_children(it);
        }
        let ListItem { text, spans, children } = it;
        let ghost c0 = children@;
        let mut children = children;
        let mut items = items;
        let ghost m0 = items@;
        children.append(&mut items);
        proof {
            assert(items_view(children@) =~= items_view(c0) + items_view(m0));
            lemma_item_view_of(text, spans, children);
        }
        let it2 = ListItem { text, spans, children };
        self.push_back_item(ctx, it2);
        proof {
            let o = old(self)@;
            let c = o.lists.last();
            let ni = ItemV { children: last_item(o).children + items_view(m0), ..last_item(o) };
            assert(c.items.drop_last().push(ni) =~= c.items.update(c.items.len() - 1, ni));
            assert(o.lists.drop_last().push(ListCtxV { start: c.start, items: c.items.update(c.items.len() - 1, ni) }) =~= o.lists.update(o.lists.len() - 1, ListCtxV { items: c.items.update(c.items.len() - 1, ni), ..c }));
            assert(self@ =~= with_last_item(o, ni));
        }
    }
}


impl MdParser {
    fn start_heading(&mut self, l: u8)
        ensures
            final(self)@ == md_step(old(self)@, MdEvent::StartHeading(l)),
    {
        self.flush_spans();
        self.is_heading = true;
        self.heading_level = l;
    }

    fn end_heading(&mut self)
        ensures
            final(self)@ == md_step(old(self)@, MdEvent::EndHeading),
    {
        self.flush_spans();
        let l = self.heading_level;
        self.flush_paragraph(true, l);
        self.is_heading = false;
    }

    fn start_code_block(&mut self, lang: String)
        ensures
            final(self)@ == md_step(old(self)@, MdEvent::StartCodeBlock(lang)),
    {
        self.flush_both();
        self.in_code = true;
        self.code_content = String::new();
        self.code_lang = lang;
    }

    fn end_code_block(&mut self)
        ensures
            final(self)@ == md_step(old(self)@, MdEvent::EndCodeBlock),
    {
        self.in_code = false;
        let mut lang = String::new();
        std::mem::swap(&mut lang, &mut self.code_lang);
        let mut content = String::new();
        std::mem::swap(&mut content, &mut self.code_content);
        self.push_block(ContentBlock::CodeBlock { lang, content });
        assert(self@ =~= md_step(old(self)@, MdEvent::EndCodeBlock));
    }

    #[verifier::rlimit(100)]
    #[verifier::spinoff_prover]
    fn start_list(&mut self, start: Option<u64>)
        ensures
            final(self)@ == md_step(old(self)@, MdEvent::StartList(start)),
    {
        self.flush_spans();
        if self.in_list {
            if self.lists.len() > 0 && self.lists[self.lists.len() - 1].items.len() > 0 {
                let (text, spans) = self.take_lines();
                self.set_last_item_text(text, spans);
            }
        } else {
            self.flush_paragraph(false, 0);
        }
        let first: u32 = match start {
            Some(n) => n as u32,
            None => 1,
        };
        let ghost l0 = self.lists@;
        self.lists.push(ListContext { start: first, items: Vec::new() });
        self.in_list = true;
        proof {
            assert(items_view(Seq::<ListItem>::empty()) =~= Seq::<ItemV>::empty());
            assert(lists_view(self.lists@) =~= lists_view(l0).push(ListCtxV { start: first, items: Seq::empty() }));
            assert(self@ =~= md_step(old(self)@, MdEvent::StartList(start)));
        }
    }

    #[verifier::rlimit(100)]
    #[verifier::spinoff_prover]
    fn end_list(&mut self, ordered: bool)
        ensures
            final(self)@ == md_step(old(self)@, MdEvent::EndList(ordered)),
    {
        if self.lists.len() == 0 {
            return;
        }
        let ghost l0 = self.lists@;
        let ctx = self.lists.pop().unwrap();
        proof {
            assert(lists_view(self.lists@) =~= lists_view(l0).drop_last());
            assert(ctx_view(ctx) == lists_view(l0).last());
        }
        let start = ctx.start;
        let items = filter_items(ctx.items);
        if self.lists.len() == 0 {
            if items.len() == 0 {
                self.in_list = false;
                assert(self@ =~= md_step(old(self)@, MdEvent::EndList(ordered)));
                return;
            }
            let st = if ordered { start } else { 1 };
            self.push_block(ContentBlock::List { ordered, start: st, items });
            self.in_list = false;
            assert(self@ =~= md_step(old(self)@, MdEvent::EndList(ordered)));
        } else if self.lists[self.lists.len() - 1].items.len() > 0 && items.len() > 0 {
            self.extend_last_item_children(items);
        }
    }

    fn start_item(&mut self)
        ensures
            final(self)@ == md_step(old(self)@, MdEvent::StartItem),
    {
        self.flush_spans();
        if self.lists.len() > 0 {
            let ghost l0 = self.lists@;
            let mut ctx = self.lists.pop().unwrap();
            let ghost i0 = ctx.items@;
            let fresh = ListItem { text: Vec::new(), spans: Vec::new(), children: Vec::new() };
            proof {
                lemma_item_children(fresh);
            }
            ctx.items.push(fresh);
            proof {
                assert(strs(Seq::<String>::empty()) =~= Seq::<Seq<char>>::empty());
                assert(line_spans_view(Seq::<Vec<Span>>::empty()) =~= Seq::<Seq<(Seq<char>, SpanStyle)>>::empty());
                assert(items_view(Seq::<ListItem>::empty()) =~= Seq::<ItemV>::empty());
                assert(items_view(ctx.items@) =~= items_view(i0).push(ItemV { text: Seq::empty(), spans: Seq::empty(), children: Seq::empty() }));
            }
            self.lists.push(ctx);
            proof {
                let t = flush_spans(old(self)@);
                let c = t.lists.last();
                assert(lists_view(self.lists@) =~= lists_view(l0).update(l0.len() - 1, ListCtxV { items: c.items.push(ItemV { text: Seq::empty(), spans: Seq::empty(), children: Seq::empty() }), ..c }));
                assert(self@ =~= md_step(old(self)@, MdEvent::StartItem));
            }
        }
    }

    #[verifier::rlimit(100)]
    #[verifier::spinoff_prover]
    fn end_item(&mut self)
        ensures
            final(self)@ == md_step(old(self)@, MdEvent::EndItem),
    {
        if self.lists.len() > 0 && self.lists[self.lists.len() - 1].items.len() > 0 {
            self.flush_spans();
            if self.lines.len() > 0 {
                let (more, more_spans) = self.take_lines();
                self.extend_last_item_text(more, more_spans);
                proof {
                    let t = flush_spans(old(self)@);
                    assert(self@ =~= md_step(old(self)@, MdEvent::EndItem));
                }
            }
        }
    }

    fn task_marker(&mut self, checked: bool)
        ensures
            final(self)@ == md_step(old(self)@, MdEvent::TaskListMarker(checked)),
    {
        self.task_checked = checked;
        if !self.in_task {
            self.flush_both();
            self.in_task = true;
            self.tasks = Vec::new();
            assert(self@ =~= md_step(old(self)@, MdEvent::TaskListMarker(checked)));
        }
    }

    fn start_link(&mut self, url: String)
        ensures
            final(self)@ == md_step(old(self)@, MdEvent::StartLink(url)),
    {
        self.in_link = true;
        self.link_url = url;
        self.link_text = String::new();
    }

    fn end_link(&mut self)
        ensures
            final(self)@ == md_step(old(self)@, MdEvent::EndLink),
    {
        if self.in_link {
            self.in_link = false;
            let mut shown = if self.link_text.as_str().is_empty() { self.link_url.clone() } else { self.link_text.clone() };
            shown.append(" (");
            shown.append(self.link_url.as_str());
            shown.append(")");
            let ghost sp = self.spans@;
            let run = Span { content: shown, style: SpanStyle::Link };
            self.spans.push(run);
            self.link_text = String::new();
            self.link_url = String::new();
            proof {
                assert(spans_view(self.spans@) =~= spans_view(sp).push(span_view(run)));
                assert(self@ =~= md_step(old(self)@, MdEvent::EndLink));
            }
        }
    }

    fn set_italic(&mut self, on: bool)
        ensures
            final(self)@ == md_step(old(self)@, if on { MdEvent::StartEmphasis } else { MdEvent::EndEmphasis }),
    {
        self.italic = on;
    }

    fn set_bold(&mut self, on: bool)
        ensures
            final(self)@ == md_step(old(self)@, if on { MdEvent::StartStrong } else { MdEvent::EndStrong }),
    {
        self.bold = on;
    }

    fn set_strikethrough(&mut self, on: bool)
        ensures
            final(self)@ == md_step(
                old(self)@,
                if on { MdEvent::StartStrikethrough } else { MdEvent::EndStrikethrough },
            ),
    {
        self.strikethrough = on;
    }

    fn start_quote(&mut self)
        ensures
            final(self)@ == md_step(old(self)@, MdEvent::StartBlockQuote),
    {
        self.flush_both();
        self.in_block_quote = true;
    }

    fn end_quote(&mut self)
        ensures
            final(self)@ == md_step(old(self)@, MdEvent::EndBlockQuote),
    {
        self.flush_spans();
        if self.lines.len() > 0 {
            let (text, spans) = self.take_lines();
            self.push_block(ContentBlock::BlockQuote { text, spans });
        }
        self.in_block_quote = false;
        assert(self@ =~= md_step(old(self)@, MdEvent::EndBlockQuote));
    }

    fn start_table(&mut self)
        ensures
            final(self)@ == md_step(old(self)@, MdEvent::StartTable),
    {
        self.flush_both();
        self.in_table = true;
        self.headers = Vec::new();
        self.rows = Vec::new();
        self.row = Vec::new();
        self.cell = String::new();
        assert(self@ =~= md_step(old(self)@, MdEvent::StartTable));
    }

    fn end_table(&mut self)
        ensures
            final(self)@ == md_step(old(self)@, MdEvent::EndTable),
    {
        let mut rows: Vec<Vec<String>> = Vec::new();
        std::mem::swap(&mut rows, &mut self.rows);
        let mut row: Vec<String> = Vec::new();
        std::mem::swap(&mut row, &mut self.row);
        let ghost r0 = rows@;
        if row.len() > 0 {
            rows.push(row);
        }
        let mut headers: Vec<String> = Vec::new();
        std::mem::swap(&mut headers, &mut self.headers);
        let ghost hv = strs(headers@);
        let ghost rv = Seq::new(rows@.len(), |i: int| strs(rows@[i]@));
        self.push_block(ContentBlock::Table { headers, rows });
        self.in_table = false;
        proof {
            let o = old(self)@;
            let want = if o.row.len() > 0 { o.rows.push(o.row) } else { o.rows };
            assert(rv =~= want);
            assert(self@ =~= md_step(old(self)@, MdEvent::EndTable));
        }
    }

    fn end_table_head(&mut self)
        ensures
            final(self)@ == md_step(old(self)@, MdEvent::EndTableHead),
    {
        let mut row: Vec<String> = Vec::new();
        std::mem::swap(&mut row, &mut self.row);
        self.headers = row;
        assert(self@ =~= md_step(old(self)@, MdEvent::EndTableHead));
    }

    fn end_table_row(&mut self)
        ensures
            final(self)@ == md_step(old(self)@, MdEvent::EndTableRow),
    {
        if self.row.len() > 0 {
            let mut row: Vec<String> = Vec::new();
            std::mem::swap(&mut row, &mut self.row);
            let ghost r0 = self.rows@;
            self.rows.push(row);
            proof {
                assert(Seq::new(self.rows@.len(), |i: int| strs(self.rows@[i]@)) =~= Seq::new(r0.len(), |i: int| strs(r0[i]@)).push(strs(row@)));
                assert(self@ =~= md_step(old(self)@, MdEvent::EndTableRow));
            }
        }
    }

    fn start_cell(&mut self)
        ensures
            final(self)@ == md_step(old(self)@, MdEvent::StartTableCell),
    {
        if self.in_cell {
            self.cell = String::new();
        } else {
            self.in_cell = true;
        }
    }

    fn end_cell(&mut self)
        ensures
            final(self)@ == md_step(old(self)@, MdEvent::EndTableCell),
    {
        self.in_cell = false;
        let mut cell = String::new();
        std::mem::swap(&mut cell, &mut self.cell);
        let ghost r0 = self.row@;
        self.row.push(cell);
        proof {
            lemma_strs_push(r0, cell);
            assert(self@ =~= md_step(old(self)@, MdEvent::EndTableCell));
        }
    }

    fn end_paragraph(&mut self)
        ensures
            final(self)@ == md_step(old(self)@, MdEvent::EndParagraph),
    {
        if self.in_list {
        } else if self.in_task {
            self.flush_spans();
            let (text, spans) = self.take_lines();
            let checked = self.task_checked;
            let ghost t0 = self.tasks@;
            let item = TaskListItem { checked, text, spans };
            self.tasks.push(item);
            proof {
                assert(Seq::new(self.tasks@.len(), |i: int| task_view(self.tasks@[i])) =~= Seq::new(t0.len(), |i: int| task_view(t0[i])).push(task_view(item)));
                assert(self@ =~= md_step(old(self)@, MdEvent::EndParagraph));
            }
        } else if self.in_block_quote {
        } else {
            self.flush_both();
        }
    }

    fn push_span(&mut self, x: String, style: SpanStyle)
        ensures
            final(self)@ == (MdState { spans: old(self)@.spans.push((x@, style)), ..old(self)@ }),
    {
        let ghost sp = self.spans@;
        let run = Span { content: x, style };
        self.spans.push(run);
        proof {
            assert(spans_view(self.spans@) =~= spans_view(sp).push(span_view(run)));
            assert(self@ =~= (MdState { spans: old(self)@.spans.push((x@, style)), ..old(self)@ }));
        }
    }

    fn text(&mut self, x: String)
        ensures
            final(self)@ == md_step(old(self)@, MdEvent::Text(x)),
    {
        if self.in_code {
            self.code_content.append(x.as_str());
        } else if self.in_table {
            if self.in_cell {
                self.cell.append(x.as_str());
            }
        } else if self.in_link {
            self.link_text.append(x.as_str());
        } else {
            let style = SpanStyle::Text {
                bold: self.bold,
                italic: self.italic,
                strikethrough: self.strikethrough,
                heading: self.is_heading,
            };
            self.push_span(x, style);
        }
    }

    fn code(&mut self, x: String)
        ensures
            final(self)@ == md_step(old(self)@, MdEvent::Code(x)),
    {
        if self.in_code {
            self.code_content.append(x.as_str());
        } else if self.in_table && self.in_cell {
            self.cell.append(x.as_str());
        } else {
            self.push_span(x, SpanStyle::Code);
        }
    }

    fn hard_break(&mut self)
        ensures
            final(self)@ == md_step(old(self)@, MdEvent::HardBreak),
    {
        if !self.in_code {
            self.flush_spans();
            let ghost l0 = self.lines@;
            let ghost s0 = self.line_spans@;
            let empty = String::new();
            let ghost ge = empty;
            self.lines.push(empty);
            self.line_spans.push(Vec::new());
            proof {
                lemma_strs_push(l0, ge);
                assert(spans_view(Seq::<Span>::empty()) =~= Seq::<(Seq<char>, SpanStyle)>::empty());
                assert(line_spans_view(self.line_spans@) =~= line_spans_view(s0).push(Seq::empty()));
                assert(self@ =~= md_step(old(self)@, MdEvent::HardBreak));
            }
        }
    }

    fn rule(&mut self)
        ensures
            final(self)@ == md_step(old(self)@, MdEvent::Rule),
    {
        self.flush_both();
        self.push_block(ContentBlock::Rule);
    }

    /// Apply one event.
    #[verifier::rlimit(100)]
    #[verifier::spinoff_prover]
    pub fn step(&mut self, e: MdEvent)
        ensures
            final(self)@ == md_step(old(self)@, e),
    {
        match e {
            MdEvent::StartHeading(l) => self.start_heading(l),
            MdEvent::EndHeading => self.end_heading(),
            MdEvent::StartCodeBlock(lang) => self.start_code_block(lang),
            MdEvent::EndCodeBlock => self.end_code_block(),
            MdEvent::StartList(start) => self.start_list(start),
            MdEvent::EndList(ordered) => self.end_list(ordered),
            MdEvent::StartItem => self.start_item(),
            MdEvent::EndItem => self.end_item(),
            MdEvent::TaskListMarker(c) => self.task_marker(c),
            MdEvent::StartLink(url) => self.start_link(url),
            MdEvent::EndLink => self.end_link(),
            MdEvent::StartEmphasis => self.set_italic(true),
            MdEvent::EndEmphasis => self.set_italic(false),
            MdEvent::StartStrong => self.set_bold(true),
            MdEvent::EndStrong => self.set_bold(false),
            MdEvent::StartStrikethrough => self.set_strikethrough(true),
            MdEvent::EndStrikethrough => self.set_strikethrough(false),
            MdEvent::StartBlockQuote => self.start_quote(),
            MdEvent::EndBlockQuote => self.end_quote(),
            MdEvent::StartTable => self.start_table(),
            MdEvent::EndTable => self.end_table(),
            MdEvent::EndTableHead => self.end_table_head(),
            MdEvent::EndTableRow => self.end_table_row(),
            MdEvent::StartTableCell => self.start_cell(),
            MdEvent::EndTableCell => self.end_cell(),
            MdEvent::EndParagraph => self.end_paragraph(),
            MdEvent::Text(x) => self.text(x),
            MdEvent::Code(x) => self.code(x),
            MdEvent::SoftBreak => {
                if !self.in_code {
                    self.flush_spans();
                }
            },
            MdEvent::HardBreak => self.hard_break(),
            MdEvent::Rule => self.rule(),
            MdEvent::Other => {},
        }
    }

    /// Close the parse and return the blocks.
    pub fn finish(self) -> (r: Vec<ContentBlock>)
        ensures
            blocks_view(r@) == md_finish(self@),
    {
        let mut p = self;
        p.flush_spans();
        if p.lines.len() > 0 && !p.in_list && !p.in_task {
            p.flush_paragraph(false, 0);
        }
        if p.in_task && p.tasks.len() > 0 {
            let mut tasks: Vec<TaskListItem> = Vec::new();
            std::mem::swap(&mut tasks, &mut p.tasks);
            let ghost tv = Seq::new(tasks@.len(), |i: int| task_view(tasks@[i]));
            p.push_block(ContentBlock::TaskList { items: tasks });
        }
        p.blocks
    }
}

/// The content blocks of a Markdown event stream.
pub fn events_to_blocks(events: Vec<MdEvent>) -> (r: Vec<ContentBlock>)
    ensures
        blocks_view(r@) == md_blocks(events@),
{
    let mut p = MdParser::new();
    let ghost all = events@;
    let mut rest = events;
    let ghost mut k: int = 0;
    while rest.len() > 0
        invariant
            0 <= k <= all.len(),
            rest@ == all.skip(k),
            p@ == md_run(all, k),
        decreases rest@.len(),
    {
        let ghost before = rest@;
        let e = rest.remove(0);
        proof {
            assert(e == all[k]);
            assert(rest@ =~= all.skip(k + 1));
        }
        p.step(e);
        proof {
            k = k + 1;
        }
    }
    proof {
        assert(k == all.len());
    }
    p.finish()
}


/// The pieces of `s` between newlines (the last piece is what follows the
/// last newline, possibly empty).
pub open spec fn newline_pieces(s: Seq<char>) -> Seq<Seq<char>>
    decreases s.len(),
{
    if s.len() == 0 {
        seq![Seq::empty()]
    } else {
        let p = newline_pieces(s.drop_last());
        if s.last() == '\n' {
            p.push(Seq::empty())
        } else {
            p.update(p.len() - 1, p.last().push(s.last()))
        }
    }
}

/// A line without the carriage return of a CR LF ending.
pub open spec fn strip_cr(l: Seq<char>) -> Seq<char> {
    if l.len() > 0 && l.last() == '\r' { l.drop_last() } else { l }
}

/// The lines of `s` as `str::lines` gives them: split at LF or CR LF, with
/// no empty line after a final line ending.
pub open spec fn text_lines(s: Seq<char>) -> Seq<Seq<char>> {
    let p = newline_pieces(s);
    let n = p.len() - 1;
    let ended = Seq::new(n as nat, |i: int| strip_cr(p[i]));
    if p.last().len() == 0 { ended } else { ended.push(p.last()) }
}

/// Bullet characters that are rewritten as `-`.
pub open spec fn is_unicode_bullet(c: char) -> bool {
    c == '•' || c == '◦' || c == '▪' || c == '■' || c == '●' || c == '○' || c == '◇' || c == '▸'
}

/// A line with a leading Unicode bullet rewritten as `- ` (keeping its
/// indentation and dropping one space after the bullet).
pub open spec fn normalize_line(l: Seq<char>) -> Seq<char> {
    let k = lead_end(l, 0);
    if k < l.len() && is_unicode_bullet(l[k]) {
        let rest = l.skip(k + 1);
        let rest2 = if rest.len() > 0 && rest[0] == ' ' { rest.skip(1) } else { rest };
        l.take(k) + "- "@ + rest2
    } else {
        l
    }
}

/// Markdown with Unicode bullets rewritten so that they parse as lists.
pub open spec fn normalized_markdown(md: Seq<char>) -> Seq<char> {
    join_lines(text_lines(md).map_values(|l: Seq<char>| normalize_line(l)))
}

fn is_bullet(c: char) -> (b: bool)
    ensures
        b == is_unicode_bullet(c),
{
    c == '•' || c == '◦' || c == '▪' || c == '■' || c == '●' || c == '○' || c == '◇' || c == '▸'
}

fn normalize_one(l: &Vec<char>) -> (r: Vec<char>)
    ensures
        r@ == normalize_line(l@),
{
    let mut k: usize = 0;
    while k < l.len() && is_white_space_char(l[k])
        invariant
            k <= l@.len(),
            lead_end(l@, 0) == lead_end(l@, k as int),
        decreases l@.len() - k,
    {
        k = k + 1;
    }
    if k < l.len() && is_bullet(l[k]) {
        let mut out: Vec<char> = Vec::new();
        let mut i: usize = 0;
        while i < k
            invariant
                i <= k < l@.len(),
                out@ == l@.take(i as int),
            decreases k - i,
        {
            out.push(l[i]);
            i = i + 1;
            assert(out@ =~= l@.take(i as int));
        }
        out.push('-');
        out.push(' ');
        let mut j = k + 1;
        if j < l.len() && l[j] == ' ' {
            j = j + 1;
        }
        let ghost head = out@;
        let ghost from = j;
        while j < l.len()
            invariant
                k + 1 <= from <= j <= l@.len(),
                out@ == head + l@.subrange(from as int, j as int),
            decreases l@.len() - j,
        {
            out.push(l[j]);
            j = j + 1;
            assert(out@ =~= head + l@.subrange(from as int, j as int));
        }
        proof {
            reveal_strlit("- ");
            let rest = l@.skip(k + 1);
            let rest2 = if rest.len() > 0 && rest[0] == ' ' { rest.skip(1) } else { rest };
            assert(rest2 =~= l@.subrange(from as int, l@.len() as int));
            assert(head =~= l@.take(k as int) + "- "@);
            assert(out@ =~= l@.take(k as int) + "- "@ + rest2);
        }
        out
    } else {
        let mut out: Vec<char> = Vec::new();
        let mut i: usize = 0;
        while i < l.len()
            invariant
                i <= l@.len(),
                out@ == l@.take(i as int),
            decreases l@.len() - i,
        {
            out.push(l[i]);
            i = i + 1;
            assert(out@ =~= l@.take(i as int));
        }
        assert(l@.take(l@.len() as int) =~= l@);
        out
    }
}

/// The lines of `md`, as `str::lines` gives them.
pub fn split_text_lines(md: &str) -> (r: Vec<Vec<char>>)
    ensures
        r@.len() == text_lines(md@).len(),
        forall|i: int| 0 <= i < r@.len() ==> (#[trigger] r@[i])@ == text_lines(md@)[i],
{
    let cs = chars_of(md);
    let mut done: Vec<Vec<char>> = Vec::new();
    let mut cur: Vec<char> = Vec::new();
    let mut i: usize = 0;
    while i < cs.len()
        invariant
            cs@ == md@,
            i <= cs@.len(),
            done@.len() + 1 == newline_pieces(cs@.take(i as int)).len(),
            forall|j: int| 0 <= j < done@.len() ==> (#[trigger] done@[j])@ == strip_cr(newline_pieces(cs@.take(i as int))[j]),
            cur@ == newline_pieces(cs@.take(i as int)).last(),
        decreases cs@.len() - i,
    {
        proof {
            assert(cs@.take(i as int + 1).drop_last() =~= cs@.take(i as int));
            assert(cs@.take(i as int + 1).last() == cs@[i as int]);
        }
        let c = cs[i];
        if c == '\n' {
            let mut line = Vec::new();
            std::mem::swap(&mut line, &mut cur);
            let n = line.len();
            if n > 0 && line[n - 1] == '\r' {
                line.pop();
            }
            done.push(line);
        } else {
            cur.push(c);
        }
        i = i + 1;
    }
    proof {
        assert(cs@.take(cs@.len() as int) =~= cs@);
    }
    if cur.len() > 0 {
        done.push(cur);
    }
    done
}

/// Rewrite lines that start (after indentation) with a Unicode bullet as
/// Markdown list items, so that the parser sees lists.
pub fn normalize_list_markers(md: &str) -> (r: String)
    ensures
        r@ == normalized_markdown(md@),
{
    let lines = split_text_lines(md);
    let ghost ls = text_lines(md@).map_values(|l: Seq<char>| normalize_line(l));
    let mut out = String::new();
    let mut i: usize = 0;
    while i < lines.len()
        invariant
            i <= lines@.len(),
            lines@.len() == text_lines(md@).len(),
            forall|j: int| 0 <= j < lines@.len() ==> (#[trigger] lines@[j])@ == text_lines(md@)[j],
            ls == text_lines(md@).map_values(|l: Seq<char>| normalize_line(l)),
            out@ == join_lines(ls.take(i as int)),
        decreases lines@.len() - i,
    {
        let n = normalize_one(&lines[i]);
        let ghost before = out@;
        proof {
            assert(ls.take(i as int + 1).drop_last() =~= ls.take(i as int));
            assert(ls.take(i as int + 1).last() == n@);
        }
        if i > 0 {
            out.push('\n');
        }
        let piece = string_from_chars(&n);
        out.append(piece.as_str());
        proof {
            if i == 0 {
                assert(out@ =~= n@);
            } else {
                assert(out@ =~= before + seq!['\n'] + n@);
            }
        }
        i = i + 1;
    }
    proof {
        assert(ls.take(ls.len() as int) =~= ls);
    }
    out
}


/// An item and all the items below it have something to show.
pub open spec fn item_clean(it: ItemV) -> bool
    decreases it, 0int,
{
    item_kept(it) && children_clean(it.children, it.children.len() as int)
}

/// The first `k` items of `cs` are clean.
pub open spec fn children_clean(cs: Seq<ItemV>, k: int) -> bool
    decreases cs, k,
{
    if k <= 0 || k > cs.len() {
        k <= 0
    } else {
        children_clean(cs, k - 1) && item_clean(cs[k - 1])
    }
}

/// Every item of `items` is clean.
pub open spec fn all_clean(items: Seq<ItemV>) -> bool {
    forall|i: int| 0 <= i < items.len() ==> #[trigger] item_clean(items[i])
}

/// A list block has at least one item, and its items are clean; other
/// blocks have no items.
pub open spec fn block_lists_clean(b: BlockV) -> bool {
    match b {
        BlockV::List(_, _, items) => items.len() > 0 && all_clean(items),
        _ => true,
    }
}

/// What parsing keeps true: list blocks hold clean items, and the items
/// of the open lists have clean children.
pub open spec fn md_clean(s: MdState) -> bool {
    &&& forall|i: int| 0 <= i < s.blocks.len() ==> #[trigger] block_lists_clean(s.blocks[i])
    &&& forall|i: int, j: int|
        0 <= i < s.lists.len() && 0 <= j < s.lists[i].items.len() ==> all_clean(#[trigger] s.lists[i].items[j].children)
}

proof fn lemma_children_clean_all(cs: Seq<ItemV>, k: int)
    requires
        0 <= k <= cs.len(),
    ensures
        children_clean(cs, k) <==> (forall|i: int| 0 <= i < k ==> #[trigger] item_clean(cs[i])),
    decreases k,
{
    if k > 0 {
        lemma_children_clean_all(cs, k - 1);
        if children_clean(cs, k) {
            assert forall|i: int| 0 <= i < k implies #[trigger] item_clean(cs[i]) by {
                if i < k - 1 {
                    assert(children_clean(cs, k - 1));
                }
            }
        }
        if forall|i: int| 0 <= i < k ==> #[trigger] item_clean(cs[i]) {
            assert(item_clean(cs[k - 1]));
            assert forall|i: int| 0 <= i < k - 1 implies #[trigger] item_clean(cs[i]) by {
                assert(item_clean(cs[i]));
            }
        }
    }
}

proof fn lemma_item_clean(it: ItemV)
    ensures
        item_clean(it) <==> item_kept(it) && all_clean(it.children),
{
    lemma_children_clean_all(it.children, it.children.len() as int);
}

proof fn lemma_all_clean_concat(a: Seq<ItemV>, b: Seq<ItemV>)
    requires
        all_clean(a),
        all_clean(b),
    ensures
        all_clean(a + b),
{
    assert forall|i: int| 0 <= i < (a + b).len() implies #[trigger] item_clean((a + b)[i]) by {
        if i < a.len() {
            assert((a + b)[i] == a[i]);
        } else {
            assert((a + b)[i] == b[i - a.len()]);
        }
    }
}

/// Kept items have something to show and come from the list.
proof fn lemma_kept_items(items: Seq<ItemV>)
    ensures
        forall|i: int| 0 <= i < kept_items(items).len() ==> item_kept(#[trigger] kept_items(items)[i])
            && exists|j: int| 0 <= j < items.len() && items[j] == kept_items(items)[i],
    decreases items.len(),
{
    if items.len() > 0 {
        lemma_kept_items(items.drop_last());
        let k = kept_items(items);
        let prev = kept_items(items.drop_last());
        assert forall|i: int| 0 <= i < k.len() implies item_kept(#[trigger] k[i])
            && exists|j: int| 0 <= j < items.len() && items[j] == k[i] by {
            if i < prev.len() {
                assert(k[i] == prev[i]);
                let j = choose|j: int| 0 <= j < items.drop_last().len() && items.drop_last()[j] == prev[i];
                assert(items[j] == k[i]);
            } else {
                assert(k[i] == items.last());
                assert(items[items.len() - 1] == k[i]);
            }
        }
    }
}

/// The kept items of a list whose items have clean children are clean.
proof fn lemma_kept_items_clean(items: Seq<ItemV>)
    requires
        forall|j: int| 0 <= j < items.len() ==> all_clean(#[trigger] items[j].children),
    ensures
        all_clean(kept_items(items)),
{
    lemma_kept_items(items);
    assert forall|i: int| 0 <= i < kept_items(items).len() implies #[trigger] item_clean(kept_items(items)[i]) by {
        let x = kept_items(items)[i];
        let j = choose|j: int| 0 <= j < items.len() && items[j] == x;
        assert(all_clean(items[j].children));
        lemma_item_clean(x);
    }
}

proof fn lemma_flush_keeps_clean(s: MdState)
    requires
        md_clean(s),
    ensures
        md_clean(flush_spans(s)),
        md_clean(flush_paragraph(s, false, 0)),
        md_clean(flush_paragraph(s, true, s.heading_level)),
        md_clean(flush_both(s)),
{
    let t = flush_spans(s);
    assert(md_clean(t));
    let u = flush_paragraph(t, false, 0);
    assert forall|i: int| 0 <= i < u.blocks.len() implies #[trigger] block_lists_clean(u.blocks[i]) by {
        if i < t.blocks.len() {
            assert(u.blocks[i] == t.blocks[i]);
        }
    }
    let v = flush_paragraph(s, false, 0);
    assert forall|i: int| 0 <= i < v.blocks.len() implies #[trigger] block_lists_clean(v.blocks[i]) by {
        if i < s.blocks.len() {
            assert(v.blocks[i] == s.blocks[i]);
        }
    }
    let w = flush_paragraph(s, true, s.heading_level);
    assert forall|i: int| 0 <= i < w.blocks.len() implies #[trigger] block_lists_clean(w.blocks[i]) by {
        if i < s.blocks.len() {
            assert(w.blocks[i] == s.blocks[i]);
        }
    }
}

/// Pushing a block that is clean keeps the blocks clean.
proof fn lemma_push_block_clean(bs: Seq<BlockV>, b: BlockV)
    requires
        forall|i: int| 0 <= i < bs.len() ==> #[trigger] block_lists_clean(bs[i]),
        block_lists_clean(b),
    ensures
        forall|i: int| 0 <= i < bs.push(b).len() ==> #[trigger] block_lists_clean(bs.push(b)[i]),
{
    assert forall|i: int| 0 <= i < bs.push(b).len() implies #[trigger] block_lists_clean(bs.push(b)[i]) by {
        if i < bs.len() {
            assert(bs.push(b)[i] == bs[i]);
        }
    }
}

/// Replacing the current item by one with clean children keeps the state
/// clean.
proof fn lemma_with_last_item_clean(s: MdState, it: ItemV)
    requires
        md_clean(s),
        has_last_item(s),
        all_clean(it.children),
    ensures
        md_clean(with_last_item(s, it)),
{
    let t = with_last_item(s, it);
    assert forall|i: int, j: int| 0 <= i < t.lists.len() && 0 <= j < t.lists[i].items.len()
        implies all_clean(#[trigger] t.lists[i].items[j].children) by {
        if i == s.lists.len() - 1 && j == s.lists.last().items.len() - 1 {
        } else if i == s.lists.len() - 1 {
            assert(t.lists[i].items[j] == s.lists[i].items[j]);
        } else {
            assert(t.lists[i] == s.lists[i]);
        }
    }
}

/// The inline and table-cell events leave the blocks and the lists as they
/// are, so they keep the parse state clean.
#[verifier::spinoff_prover]
proof fn lemma_md_step_clean_inline(s: MdState, e: MdEvent)
    requires
        md_clean(s),
        e is StartEmphasis || e is EndEmphasis || e is StartStrong || e is EndStrong || e is StartStrikethrough
            || e is EndStrikethrough || e is StartLink || e is EndLink || e is Text || e is Code || e is SoftBreak
            || e is HardBreak || e is StartTableCell || e is EndTableCell || e is EndTableHead || e is EndTableRow
            || e is Other,
    ensures
        md_clean(md_step(s, e)),
{
    lemma_flush_keeps_clean(s);
    let u = md_step(s, e);
    assert(u.blocks == s.blocks && u.lists == s.lists);
}

/// The list events keep the parse state clean.
#[verifier::rlimit(100)]
#[verifier::spinoff_prover]
proof fn lemma_md_step_clean_lists(s: MdState, e: MdEvent)
    requires
        md_clean(s),
        e is StartList || e is EndList || e is StartItem || e is EndItem,
    ensures
        md_clean(md_step(s, e)),
{
    lemma_flush_keeps_clean(s);
    let t = flush_spans(s);
    lemma_flush_keeps_clean(t);
    match e {
        MdEvent::StartList(start) => {
            let t2 = if t.in_list {
                if has_last_item(t) {
                    lemma_with_last_item_clean(t, ItemV { text: t.lines, spans: t.line_spans, ..last_item(t) });
                    without_lines(with_last_item(t, ItemV { text: t.lines, spans: t.line_spans, ..last_item(t) }))
                } else {
                    t
                }
            } else {
                flush_paragraph(t, false, 0)
            };
            assert(md_clean(t2));
            let first = match start {
                Some(n) => n as u32,
                None => 1u32,
            };
            let u = MdState { lists: t2.lists.push(ListCtxV { start: first, items: Seq::empty() }), in_list: true, ..t2 };
            assert forall|i: int, j: int| 0 <= i < u.lists.len() && 0 <= j < u.lists[i].items.len()
                implies all_clean(#[trigger] u.lists[i].items[j].children) by {
                assert(u.lists[i] == t2.lists[i]);
            }
            assert(md_step(s, e) == u);
        },
        MdEvent::EndList(ordered) => {
            if s.lists.len() > 0 {
                let ctx = s.lists.last();
                let items = kept_items(ctx.items);
                assert forall|j: int| 0 <= j < ctx.items.len() implies all_clean(#[trigger] ctx.items[j].children) by {
                    assert(ctx.items[j] == s.lists[s.lists.len() - 1].items[j]);
                }
                lemma_kept_items_clean(ctx.items);
                let t3 = MdState { lists: s.lists.drop_last(), ..s };
                assert forall|i: int, j: int| 0 <= i < t3.lists.len() && 0 <= j < t3.lists[i].items.len()
                    implies all_clean(#[trigger] t3.lists[i].items[j].children) by {
                    assert(t3.lists[i] == s.lists[i]);
                }
                assert(md_clean(t3));
                if t3.lists.len() == 0 {
                    if items.len() > 0 {
                        lemma_push_block_clean(t3.blocks, BlockV::List(ordered, if ordered { ctx.start } else { 1 }, items));
                    }
                } else if has_last_item(t3) && items.len() > 0 {
                    lemma_all_clean_concat(last_item(t3).children, items);
                    lemma_with_last_item_clean(t3, ItemV { children: last_item(t3).children + items, ..last_item(t3) });
                }
            }
        },
        MdEvent::StartItem => {
            if t.lists.len() > 0 {
                let ctx = t.lists.last();
                let ctx2 = ListCtxV {
                    items: ctx.items.push(ItemV { text: Seq::empty(), spans: Seq::empty(), children: Seq::empty() }),
                    ..ctx
                };
                let u = MdState { lists: t.lists.update(t.lists.len() - 1, ctx2), ..t };
                assert forall|i: int, j: int| 0 <= i < u.lists.len() && 0 <= j < u.lists[i].items.len()
                    implies all_clean(#[trigger] u.lists[i].items[j].children) by {
                    if i == t.lists.len() - 1 {
                        if j < ctx.items.len() {
                            assert(u.lists[i].items[j] == t.lists[i].items[j]);
                        } else {
                            assert(u.lists[i].items[j].children =~= Seq::<ItemV>::empty());
                        }
                    } else {
                        assert(u.lists[i] == t.lists[i]);
                    }
                }
                assert(md_step(s, e) == u);
            }
        },
        MdEvent::EndItem => {
            if has_last_item(s) && t.lines.len() > 0 {
                lemma_with_last_item_clean(
                    t,
                    ItemV { text: last_item(t).text + t.lines, spans: last_item(t).spans + t.line_spans, ..last_item(t) },
                );
            }
        },
        _ => {},
    }
}

#[verifier::rlimit(100)]
#[verifier::spinoff_prover]
proof fn lemma_md_step_clean(s: MdState, e: MdEvent)
    requires
        md_clean(s),
    ensures
        md_clean(md_step(s, e)),
{
    lemma_flush_keeps_clean(s);
    let t = flush_spans(s);
    lemma_flush_keeps_clean(t);
    match e {
        MdEvent::EndCodeBlock => {
            lemma_push_block_clean(s.blocks, BlockV::Code(s.code_lang, s.code_content));
        },
        MdEvent::StartList(_) | MdEvent::EndList(_) | MdEvent::StartItem | MdEvent::EndItem => {
            lemma_md_step_clean_lists(s, e);
        },
        MdEvent::StartEmphasis | MdEvent::EndEmphasis | MdEvent::StartStrong | MdEvent::EndStrong
        | MdEvent::StartStrikethrough | MdEvent::EndStrikethrough | MdEvent::StartLink(_) | MdEvent::EndLink
        | MdEvent::Text(_) | MdEvent::Code(_) | MdEvent::SoftBreak | MdEvent::HardBreak
        | MdEvent::StartTableCell | MdEvent::EndTableCell | MdEvent::EndTableHead | MdEvent::EndTableRow
        | MdEvent::Other => {
            lemma_md_step_clean_inline(s, e);
        },
        MdEvent::EndBlockQuote => {
            if t.lines.len() > 0 {
                lemma_push_block_clean(t.blocks, BlockV::Quote(t.lines, t.line_spans));
            }
        },
        MdEvent::EndTable => {
            let rows = if s.row.len() > 0 { s.rows.push(s.row) } else { s.rows };
            lemma_push_block_clean(s.blocks, BlockV::Table(s.headers, rows));
        },
        MdEvent::Rule => {
            let u = flush_both(s);
            lemma_push_block_clean(u.blocks, BlockV::Rule);
        },
        MdEvent::EndHeading => {
            lemma_flush_keeps_clean(t);
        },
        _ => {},
    }
}

proof fn lemma_md_run_clean(events: Seq<MdEvent>, k: int)
    requires
        0 <= k <= events.len(),
    ensures
        md_clean(md_run(events, k)),
    decreases k,
{
    if k > 0 {
        lemma_md_run_clean(events, k - 1);
        lemma_md_step_clean(md_run(events, k - 1), events[k - 1]);
    }
}

/// Empty list items (with no text and no nested items) never reach the
/// blocks: every item of every list block, at every depth, has text or
/// nested items; and a list whose items are all empty gives no block, so
/// every list block has at least one item.
pub proof fn law_list_items_never_empty(events: Seq<MdEvent>)
    ensures
        forall|i: int| 0 <= i < md_blocks(events).len() ==> #[trigger] block_lists_clean(md_blocks(events)[i]),
{
    let s = md_run(events, events.len() as int);
    lemma_md_run_clean(events, events.len() as int);
    lemma_flush_keeps_clean(s);
    let t = flush_spans(s);
    lemma_flush_keeps_clean(t);
    let u = if t.lines.len() > 0 && !t.in_list && !t.in_task { flush_paragraph(t, false, 0) } else { t };
    assert(md_clean(u));
    if u.in_task && u.tasks.len() > 0 {
        lemma_push_block_clean(u.blocks, BlockV::TaskList(u.tasks));
    }
}

/// Each line's text is its runs' texts joined, with one list of runs per
/// line.
pub open spec fn lines_match(lines: Seq<Seq<char>>, runs: Seq<Seq<(Seq<char>, SpanStyle)>>) -> bool {
    &&& lines.len() == runs.len()
    &&& forall|i: int| 0 <= i < lines.len() ==> #[trigger] lines[i] == concat(span_texts(runs[i]))
}

/// The lines of a paragraph, heading, block quote or task item match their
/// runs.
pub open spec fn block_lines_match(b: BlockV) -> bool {
    match b {
        BlockV::Paragraph(lines, runs) => lines_match(lines, runs),
        BlockV::Heading(_, lines, runs) => lines_match(lines, runs),
        BlockV::Quote(lines, runs) => lines_match(lines, runs),
        BlockV::TaskList(items) => forall|i: int| 0 <= i < items.len() ==> lines_match(#[trigger] items[i].1, items[i].2),
        _ => true,
    }
}

/// The open lines, the collected task items and the blocks all match
/// their runs.
pub open spec fn md_lines_match(s: MdState) -> bool {
    &&& lines_match(s.lines, s.line_spans)
    &&& forall|i: int| 0 <= i < s.tasks.len() ==> lines_match(#[trigger] s.tasks[i].1, s.tasks[i].2)
    &&& forall|i: int| 0 <= i < s.blocks.len() ==> #[trigger] block_lines_match(s.blocks[i])
}

proof fn lemma_push_block_matched(bs: Seq<BlockV>, b: BlockV)
    requires
        forall|i: int| 0 <= i < bs.len() ==> #[trigger] block_lines_match(bs[i]),
        block_lines_match(b),
    ensures
        forall|i: int| 0 <= i < bs.push(b).len() ==> #[trigger] block_lines_match(bs.push(b)[i]),
{
    assert forall|i: int| 0 <= i < bs.push(b).len() implies #[trigger] block_lines_match(bs.push(b)[i]) by {
        if i < bs.len() {
            assert(bs.push(b)[i] == bs[i]);
        }
    }
}

proof fn lemma_flush_keeps_match(s: MdState)
    requires
        md_lines_match(s),
    ensures
        md_lines_match(flush_spans(s)),
        md_lines_match(flush_paragraph(s, false, 0)),
        md_lines_match(flush_paragraph(s, true, s.heading_level)),
        md_lines_match(flush_both(s)),
        md_lines_match(without_lines(s)),
{
    let t = flush_spans(s);
    if s.spans.len() > 0 {
        assert forall|i: int| 0 <= i < t.lines.len() implies #[trigger] t.lines[i] == concat(span_texts(t.line_spans[i])) by {
            if i < s.lines.len() {
                assert(t.lines[i] == s.lines[i]);
                assert(t.line_spans[i] == s.line_spans[i]);
            }
        }
    }
    assert(md_lines_match(t));
    if t.lines.len() > 0 {
        lemma_push_block_matched(t.blocks, BlockV::Paragraph(t.lines, t.line_spans));
    }
    if s.lines.len() > 0 {
        lemma_push_block_matched(s.blocks, BlockV::Paragraph(s.lines, s.line_spans));
        lemma_push_block_matched(s.blocks, BlockV::Heading(s.heading_level, s.lines, s.line_spans));
    }
}

/// One event keeps the lines matched to their runs.
#[verifier::rlimit(100)]
#[verifier::spinoff_prover]
proof fn lemma_md_step_match(s: MdState, e: MdEvent)
    requires
        md_lines_match(s),
    ensures
        md_lines_match(md_step(s, e)),
{
    lemma_flush_keeps_match(s);
    let t = flush_spans(s);
    lemma_flush_keeps_match(t);
    let u = md_step(s, e);
    match e {
        MdEvent::EndHeading => {},
        MdEvent::EndCodeBlock => {
            lemma_push_block_matched(s.blocks, BlockV::Code(s.code_lang, s.code_content));
        },
        MdEvent::StartList(_) => {
            if t.in_list && has_last_item(t) {
                let w = without_lines(with_last_item(t, ItemV { text: t.lines, spans: t.line_spans, ..last_item(t) }));
                assert(w.blocks == t.blocks && w.tasks == t.tasks);
            }
        },
        MdEvent::EndList(ordered) => {
            if s.lists.len() > 0 {
                let ctx = s.lists.last();
                let items = kept_items(ctx.items);
                lemma_push_block_matched(s.blocks, BlockV::List(ordered, if ordered { ctx.start } else { 1 }, items));
            }
            assert(u.lines == s.lines && u.line_spans == s.line_spans && u.tasks == s.tasks);
        },
        MdEvent::EndItem => {
            assert(u.blocks == s.blocks && u.tasks == s.tasks);
        },
        MdEvent::EndBlockQuote => {
            if t.lines.len() > 0 {
                lemma_push_block_matched(t.blocks, BlockV::Quote(t.lines, t.line_spans));
            }
        },
        MdEvent::EndTable => {
            let rows = if s.row.len() > 0 { s.rows.push(s.row) } else { s.rows };
            lemma_push_block_matched(s.blocks, BlockV::Table(s.headers, rows));
        },
        MdEvent::EndParagraph => {
            if !s.in_list && s.in_task {
                let tasks = t.tasks.push((t.task_checked, t.lines, t.line_spans));
                assert forall|i: int| 0 <= i < tasks.len() implies lines_match(#[trigger] tasks[i].1, tasks[i].2) by {
                    if i < t.tasks.len() {
                        assert(tasks[i] == t.tasks[i]);
                    }
                }
            }
        },
        MdEvent::HardBreak => {
            if !s.in_code {
                assert(concat(span_texts(Seq::<(Seq<char>, SpanStyle)>::empty())) =~= Seq::<char>::empty());
                assert forall|i: int| 0 <= i < u.lines.len() implies #[trigger] u.lines[i] == concat(span_texts(u.line_spans[i])) by {
                    if i < t.lines.len() {
                        assert(u.lines[i] == t.lines[i]);
                        assert(u.line_spans[i] == t.line_spans[i]);
                    } else {
                        assert(span_texts(u.line_spans[i]) =~= Seq::<Seq<char>>::empty());
                    }
                }
            }
        },
        MdEvent::Rule => {
            let w = flush_both(s);
            lemma_push_block_matched(w.blocks, BlockV::Rule);
        },
        _ => {},
    }
}

proof fn lemma_md_run_match(events: Seq<MdEvent>, k: int)
    requires
        0 <= k <= events.len(),
    ensures
        md_lines_match(md_run(events, k)),
    decreases k,
{
    if k > 0 {
        lemma_md_run_match(events, k - 1);
        lemma_md_step_match(md_run(events, k - 1), events[k - 1]);
    }
}

/// In every paragraph, heading, block quote and task item that an event
/// stream gives, there is one list of styled runs per line, and each
/// line's text is its runs' texts joined in order.
pub proof fn law_lines_are_their_runs(events: Seq<MdEvent>)
    ensures
        forall|i: int| 0 <= i < md_blocks(events).len() ==> #[trigger] block_lines_match(md_blocks(events)[i]),
{
    let s = md_run(events, events.len() as int);
    lemma_md_run_match(events, events.len() as int);
    lemma_flush_keeps_match(s);
    let t = flush_spans(s);
    lemma_flush_keeps_match(t);
    let u = if t.lines.len() > 0 && !t.in_list && !t.in_task { flush_paragraph(t, false, 0) } else { t };
    assert(md_lines_match(u));
    if u.in_task && u.tasks.len() > 0 {
        lemma_push_block_matched(u.blocks, BlockV::TaskList(u.tasks));
    }
}

} // verus!
