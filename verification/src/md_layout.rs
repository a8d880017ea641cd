//! What the Markdown blocks show when drawn, and where: a code block's
//! title line and code, a rule's dashes, and list and task-list items
//! placed one below another in an area (nested list items indented below
//! their parent, all cut to the area's height).

use vstd::prelude::*;
use vstd::string::StringExecFns;
use crate::blocks::{text_rows, wrapped_height, ListItem, TaskListItem};
use crate::columns::cell_views;
use crate::markdown::{split_text_lines, text_lines};
use crate::text::{decimal, decimal_string, string_from_chars};
use crate::widgets::{repeat_char, repeat_string, Rect};

verus! {

/// The title of a code block: its language, or `Code` when it has none.
pub open spec fn code_title(lang: Seq<char>) -> Seq<char> {
    if lang.len() == 0 {
        "Code"@
    } else {
        lang
    }
}

/// The lines a code block shows: the title between spaces, then the code's
/// lines.
pub open spec fn code_block_text(lang: Seq<char>, content: Seq<char>) -> Seq<Seq<char>> {
    seq![" "@ + code_title(lang) + " "@] + text_lines(content)
}

/// The character views of a list of strings.
pub open spec fn string_views(v: Seq<String>) -> Seq<Seq<char>> {
    v.map_values(|s: String| s@)
}

proof fn lemma_string_views_push(v: Seq<String>, s: String)
    ensures
        string_views(v.push(s)) == string_views(v).push(s@),
{
    assert(string_views(v.push(s)) =~= string_views(v).push(s@));
}

/// The lines a code block shows.
pub fn code_block_lines(lang: &str, content: &str) -> (r: Vec<String>)
    ensures
        string_views(r@) == code_block_text(lang@, content@),
{
    proof {
        reveal_strlit("Code");
        reveal_strlit(" ");
    }
    let mut title = String::from_str(" ");
    if lang.unicode_len() == 0 {
        title.append("Code");
    } else {
        title.append(lang);
    }
    title.append(" ");
    assert(title@ == " "@ + code_title(lang@) + " "@);
    let mut out: Vec<String> = Vec::new();
    out.push(title);
    proof {
        lemma_string_views_push(Seq::empty(), title);
        assert(Seq::<String>::empty().push(title) == out@);
    }
    let lines = split_text_lines(content);
    let ghost tl = text_lines(content@);
    assert(string_views(out@) =~= seq![" "@ + code_title(lang@) + " "@] + tl.take(0));
    let mut i: usize = 0;
    while i < lines.len()
        invariant
            i <= lines@.len(),
            lines@.len() == tl.len(),
            forall|j: int| 0 <= j < lines@.len() ==> (#[trigger] lines@[j])@ == tl[j],
            string_views(out@) == seq![" "@ + code_title(lang@) + " "@] + tl.take(i as int),
        decreases lines@.len() - i,
    {
        let s = string_from_chars(&lines[i]);
        let ghost before = out@;
        out.push(s);
        proof {
            lemma_string_views_push(before, s);
            assert(tl.take(i as int + 1) =~= tl.take(i as int).push(tl[i as int]));
        }
        i = i + 1;
        assert(string_views(out@) =~= seq![" "@ + code_title(lang@) + " "@] + tl.take(i as int));
    }
    assert(tl.take(lines@.len() as int) =~= tl);
    out
}

/// The dashes of a rule `width` columns wide: `─` is two columns wide, so
/// half as many, rounded up.
pub open spec fn rule_dashes(width: nat) -> Seq<char> {
    repeat_char('─', (width + 1) / 2)
}

/// The text of a rule drawn `width` columns wide.
pub fn rule_text(width: u16) -> (s: String)
    ensures
        s@ == rule_dashes(width as nat),
{
    let n: usize = (width as usize + 1) / 2;
    repeat_string('─', n)
}

/// A list or task item as drawn: its top row, its height in rows, and its
/// lines (the bullet before the first, an indent before the others).
pub struct ItemPlacement {
    pub y: u16,
    pub height: u16,
    pub lines: Vec<String>,
}

/// A placement as plain values: top row, height and lines.
pub open spec fn placement_view(p: ItemPlacement) -> (int, int, Seq<Seq<char>>) {
    (p.y as int, p.height as int, string_views(p.lines@))
}

/// The views of a list of placements.
pub open spec fn placement_views(v: Seq<ItemPlacement>) -> Seq<(int, int, Seq<Seq<char>>)> {
    v.map_values(|p: ItemPlacement| placement_view(p))
}

/// The lines of an item whose text is `text`: `first` before its first
/// line and `rest` before the others; `first` alone when it has none.
pub open spec fn marked_lines(text: Seq<Seq<char>>, first: Seq<char>, rest: Seq<char>) -> Seq<Seq<char>> {
    if text.len() == 0 {
        seq![first]
    } else {
        Seq::new(text.len(), |i: int| if i == 0 { first + text[0] } else { rest + text[i] })
    }
}

/// Build the marked lines of `text`.
fn mark_lines(text: &Vec<String>, first: &str, rest: &str) -> (r: Vec<String>)
    ensures
        string_views(r@) == marked_lines(cell_views(text@), first@, rest@),
{
    if text.len() == 0 {
        let f = String::from_str(first);
        let mut out: Vec<String> = Vec::new();
        out.push(f);
        proof {
            lemma_string_views_push(Seq::empty(), f);
            assert(Seq::<String>::empty().push(f) == out@);
        }
        return out;
    }
    let ghost tv = cell_views(text@);
    let mut out: Vec<String> = Vec::new();
    let mut i: usize = 0;
    while i < text.len()
        invariant
            i <= text@.len(),
            text@.len() > 0,
            tv == cell_views(text@),
            string_views(out@) == marked_lines(tv, first@, rest@).take(i as int),
        decreases text@.len() - i,
    {
        let mut s = if i == 0 {
            String::from_str(first)
        } else {
            String::from_str(rest)
        };
        s.append(text[i].as_str());
        let ghost before = out@;
        out.push(s);
        proof {
            lemma_string_views_push(before, s);
            assert(tv[i as int] == text@[i as int]@);
            assert(marked_lines(tv, first@, rest@).take(i as int + 1) =~= marked_lines(tv, first@, rest@).take(
                i as int,
            ).push(marked_lines(tv, first@, rest@)[i as int]));
        }
        i = i + 1;
        assert(string_views(out@) =~= marked_lines(tv, first@, rest@).take(i as int));
    }
    assert(marked_lines(tv, first@, rest@).take(text@.len() as int) =~= marked_lines(tv, first@, rest@));
    out
}

/// A row count as a terminal height: its low 16 bits.
pub open spec fn as_rows(n: nat) -> int {
    (n % 0x10000) as int
}

/// The smaller of two integers.
pub open spec fn min_int(a: int, b: int) -> int {
    if a <= b {
        a
    } else {
        b
    }
}

/// The checkbox of a task item.
pub open spec fn checkbox(checked: bool) -> char {
    if checked {
        '☑'
    } else {
        '☐'
    }
}

/// The lines a task item shows.
pub open spec fn task_item_lines(item: TaskListItem) -> Seq<Seq<char>> {
    marked_lines(cell_views(item.text@), seq![checkbox(item.checked), ' '], "   "@)
}

/// Placements of the first `k` task items at text width `tw` in rows
/// `top..top + h`, and the rows they used: items go one below another,
/// each its wrapped text plus a blank row, cut at the bottom; drawing stops
/// at the bottom.
pub open spec fn task_steps(items: Seq<TaskListItem>, tw: nat, top: int, h: int, k: int) -> (
    Seq<(int, int, Seq<Seq<char>>)>,
    int,
)
    decreases k,
{
    if k <= 0 {
        (seq![], 0)
    } else {
        let (ps, y) = task_steps(items, tw, top, h, k - 1);
        if y >= h {
            (ps, y)
        } else {
            let hh = min_int(as_rows(text_rows(cell_views(items[k - 1].text@), tw) + 1), h - y);
            if hh == 0 {
                (ps, y)
            } else {
                (ps.push((top + y, hh, task_item_lines(items[k - 1]))), y + hh)
            }
        }
    }
}

/// Where a task list's items go in `area`: nowhere when the area or the
/// list is empty; otherwise at text width three less than the area's.
pub open spec fn task_list_layout(items: Seq<TaskListItem>, area: Rect) -> Seq<(int, int, Seq<Seq<char>>)> {
    if area.width == 0 || area.height == 0 || items.len() == 0 {
        seq![]
    } else {
        task_steps(items, (area.width - 3) as nat, area.y as int, area.height as int, items.len() as int).0
    }
}

proof fn lemma_task_steps_done(items: Seq<TaskListItem>, tw: nat, top: int, h: int, j: int, k: int)
    requires
        0 <= j <= k,
        task_steps(items, tw, top, h, j).1 >= h,
    ensures
        task_steps(items, tw, top, h, k) == task_steps(items, tw, top, h, j),
    decreases k - j,
{
    if j < k {
        lemma_task_steps_done(items, tw, top, h, j, k - 1);
    }
}

proof fn lemma_task_steps_bounded(items: Seq<TaskListItem>, tw: nat, top: int, h: int, k: int)
    requires
        h >= 0,
    ensures
        0 <= task_steps(items, tw, top, h, k).1,
        task_steps(items, tw, top, h, k).1 <= h || k <= 0,
    decreases k,
{
    if k > 0 {
        lemma_task_steps_bounded(items, tw, top, h, k - 1);
    }
}

/// Where the items of a task list go in `area` (see [`task_list_layout`]).
pub fn task_list_placements(items: &Vec<TaskListItem>, area: Rect) -> (r: Vec<ItemPlacement>)
    requires
        area.y + area.height <= u16::MAX,
        area.width > 0 && area.height > 0 && items@.len() > 0 ==> {
            &&& area.width >= 3
            &&& forall|i: int|
                0 <= i < items@.len() ==> text_rows(cell_views(#[trigger] items@[i].text@), (area.width - 3) as nat)
                    < usize::MAX
        },
    ensures
        placement_views(r@) == task_list_layout(items@, area),
{
    let mut out: Vec<ItemPlacement> = Vec::new();
    if area.width == 0 || area.height == 0 || items.len() == 0 {
        return out;
    }
    let tw: usize = area.width as usize - 3;
    let ghost top = area.y as int;
    let ghost h = area.height as int;
    let mut y: u16 = 0;
    let mut i: usize = 0;
    while i < items.len()
        invariant
            i <= items@.len(),
            items@.len() > 0,
            area.width >= 3,
            area.height > 0,
            tw == area.width - 3,
            top == area.y,
            h == area.height,
            area.y + area.height <= u16::MAX,
            y as int == task_steps(items@, tw as nat, top, h, i as int).1,
            y <= area.height,
            placement_views(out@) == task_steps(items@, tw as nat, top, h, i as int).0,
            forall|j: int|
                0 <= j < items@.len() ==> text_rows(cell_views(#[trigger] items@[j].text@), tw as nat) < usize::MAX,
        decreases items@.len() - i,
    {
        if y >= area.height {
            proof {
                lemma_task_steps_done(items@, tw as nat, top, h, i as int, items@.len() as int);
                assert((area.width - 3) as nat == tw as nat);
                assert(task_list_layout(items@, area) == task_steps(items@, tw as nat, top, h, items@.len() as int).0);
            }
            return out;
        }
        let ghost prev = task_steps(items@, tw as nat, top, h, i as int);
        let item = &items[i];
        let rows = wrapped_height(&item.text, tw) + 1;
        let item_height = #[verifier::truncate] (rows as u16);
        assert(item_height as usize == rows % 0x10000) by (bit_vector)
            requires
                item_height == rows as u16,
        ;
        let remaining = area.height - y;
        let hh = if item_height <= remaining {
            item_height
        } else {
            remaining
        };
        if hh > 0 {
            let box_str = if item.checked {
                "☑ "
            } else {
                "☐ "
            };
            proof {
                reveal_strlit("☑ ");
                reveal_strlit("☐ ");
                reveal_strlit("   ");
            }
            assert(box_str@ == seq![checkbox(item.checked), ' ']);
            let lines = mark_lines(&item.text, box_str, "   ");
            let ghost before = out@;
            out.push(ItemPlacement { y: area.y + y, height: hh, lines });
            assert(placement_views(out@) =~= placement_views(before).push(placement_view(out@.last())));
            y = y + hh;
        }
        proof {
            assert(as_rows(rows as nat) == item_height as int);
            assert(task_steps(items@, tw as nat, top, h, i as int + 1) == (if hh == 0 {
                prev
            } else {
                (prev.0.push((top + prev.1, hh as int, task_item_lines(items@[i as int]))), prev.1 + hh)
            }));
        }
        i = i + 1;
    }
    assert((area.width - 3) as nat == tw as nat);
    out
}

/// Rows of a list item's own text at text width `tw`: one for a bare
/// bullet (no text, or no room for text), else its wrapped text and a
/// blank row.
pub open spec fn item_text_rows(item: ListItem, tw: nat) -> nat {
    if tw == 0 || item.text@.len() == 0 {
        1
    } else {
        text_rows(cell_views(item.text@), tw) + 1
    }
}

/// Rows of a list item with its children below it, all at text width `tw`.
pub open spec fn item_render_rows(item: ListItem, tw: nat) -> nat
    decreases item,
{
    item_text_rows(item, tw) + kids_rows(item, item.children@.len() as int, tw)
}

/// Rows of the first `k` children of `item` at text width `tw`.
pub open spec fn kids_rows(item: ListItem, k: int, tw: nat) -> nat
    decreases item, k,
{
    if k <= 0 || k > item.children@.len() {
        0
    } else {
        kids_rows(item, k - 1, tw) + item_render_rows(item.children@[k - 1], tw)
    }
}

proof fn lemma_kids_rows_mono(item: ListItem, j: int, k: int, tw: nat)
    requires
        0 <= j <= k <= item.children@.len(),
    ensures
        kids_rows(item, j, tw) <= kids_rows(item, k, tw),
    decreases k - j,
{
    if j < k {
        lemma_kids_rows_mono(item, j, k - 1, tw);
    }
}

/// Rows of a list item's own text when drawn at text width `text_width`.
pub fn list_item_text_height(item: &ListItem, text_width: usize) -> (n: usize)
    requires
        item_text_rows(*item, text_width as nat) <= usize::MAX,
    ensures
        n as nat == item_text_rows(*item, text_width as nat),
{
    if text_width == 0 {
        return 1;
    }
    if item.text.len() == 0 {
        1
    } else {
        wrapped_height(&item.text, text_width) + 1
    }
}

/// Rows of the children of `item` when drawn at text width `text_width`.
fn kids_height(item: &ListItem, text_width: usize) -> (n: usize)
    requires
        kids_rows(*item, item.children@.len() as int, text_width as nat) <= usize::MAX,
    ensures
        n as nat == kids_rows(*item, item.children@.len() as int, text_width as nat),
    decreases item, 0nat,
{
    let mut total: usize = 0;
    let mut k: usize = 0;
    while k < item.children.len()
        invariant
            k <= item.children@.len(),
            total as nat == kids_rows(*item, k as int, text_width as nat),
            kids_rows(*item, item.children@.len() as int, text_width as nat) <= usize::MAX,
        decreases item.children@.len() - k,
    {
        proof {
            lemma_kids_rows_mono(*item, k as int + 1, item.children@.len() as int, text_width as nat);
        }
        let h = list_item_render_height(&item.children[k], text_width);
        total = total + h;
        k = k + 1;
    }
    total
}

/// Rows of a list item and its children when drawn at text width
/// `text_width`.
pub fn list_item_render_height(item: &ListItem, text_width: usize) -> (n: usize)
    requires
        item_render_rows(*item, text_width as nat) <= usize::MAX,
    ensures
        n as nat == item_render_rows(*item, text_width as nat),
    decreases item, 1nat,
{
    let text_h = list_item_text_height(item, text_width);
    text_h + kids_height(item, text_width)
}

/// The indent of nesting level `n`: two spaces a level.
pub open spec fn level_indent(n: nat) -> Seq<char> {
    repeat_char(' ', 2 * n)
}

/// The bullet of the item numbered `n` at nesting level `level`: the
/// number and a dot in an ordered list, `•` otherwise.
pub open spec fn bullet(ordered: bool, level: nat, n: nat) -> Seq<char> {
    if ordered {
        level_indent(level) + decimal(n) + ". "@
    } else {
        level_indent(level) + "• "@
    }
}

/// Columns the bullets of a list at nesting level `level` take.
pub open spec fn bullet_width(ordered: bool, level: nat) -> nat {
    2 * level + if ordered {
        4nat
    } else {
        2nat
    }
}

/// The lines a list item shows.
pub open spec fn list_item_lines(item: ListItem, ordered: bool, level: nat, n: nat) -> Seq<Seq<char>> {
    marked_lines(cell_views(item.text@), bullet(ordered, level, n), level_indent(level) + "  "@)
}

/// Where a list's items go in `area`, `start` being the first item's
/// number: nowhere when the area or the list is empty.
pub open spec fn list_layout(items: Seq<ListItem>, start: nat, ordered: bool, level: nat, area: Rect) -> Seq<
    (int, int, Seq<Seq<char>>),
>
    decreases items, items.len() + 1,
{
    if area.width == 0 || area.height == 0 || items.len() == 0 {
        seq![]
    } else {
        list_steps(items, start, ordered, level, area, items.len() as int).0
    }
}

/// Placements of the first `k` items of a list and the rows they used:
/// each item's text goes below the previous one, cut at the bottom of the
/// area (an item cut to no row is skipped); its children follow in the rows
/// they need (all of them at the parent's text width, as far as the area
/// reaches), as a bulleted list one level deeper; drawing stops at the
/// bottom.
pub open spec fn list_steps(items: Seq<ListItem>, start: nat, ordered: bool, level: nat, area: Rect, k: int) -> (
    Seq<(int, int, Seq<Seq<char>>)>,
    int,
)
    decreases items, k,
{
    if k <= 0 || k > items.len() {
        (seq![], 0)
    } else {
        let (ps, y) = list_steps(items, start, ordered, level, area, k - 1);
        let h = area.height as int;
        let tw = (area.width - bullet_width(ordered, level)) as nat;
        if y >= h {
            (ps, y)
        } else {
            let item = items[k - 1];
            let hh = min_int(as_rows(item_text_rows(item, tw)), h - y);
            if hh == 0 {
                (ps, y)
            } else {
                let ps1 = ps.push((area.y + y, hh, list_item_lines(item, ordered, level, (start + k - 1) as nat)));
                let y1 = y + hh;
                if item.children@.len() > 0 && y1 < h {
                    let ch = min_int(kids_rows(item, item.children@.len() as int, tw) as int, h - y1);
                    let carea = Rect { x: area.x, y: (area.y + y1) as u16, width: area.width, height: ch as u16 };
                    proof {
                        assert(decreases_to!(items => items[k - 1]));
                    }
                    (ps1 + list_layout(item.children@, 1, false, level + 1, carea), y1 + ch)
                } else {
                    (ps1, y1)
                }
            }
        }
    }
}

/// Whether a list can be drawn in `area` without running out of numbers:
/// the area is as wide as the bullets at every level that gets drawn, the
/// item numbers drawn fit 32 bits and the row counts fit the machine.
pub open spec fn list_fits(items: Seq<ListItem>, start: nat, ordered: bool, level: nat, area: Rect) -> bool
    decreases items, items.len() + 1,
{
    area.width == 0 || area.height == 0 || items.len() == 0 || (area.width >= bullet_width(ordered, level)
        && steps_fit(items, start, ordered, level, area, items.len() as int))
}

/// Whether drawing the first `k` items of a list stays within the
/// machine's numbers (see [`list_fits`]).
pub open spec fn steps_fit(items: Seq<ListItem>, start: nat, ordered: bool, level: nat, area: Rect, k: int) -> bool
    decreases items, k,
{
    if k <= 0 || k > items.len() {
        true
    } else {
        let y = list_steps(items, start, ordered, level, area, k - 1).1;
        let h = area.height as int;
        let tw = (area.width - bullet_width(ordered, level)) as nat;
        let item = items[k - 1];
        let hh = min_int(as_rows(item_text_rows(item, tw)), h - y);
        let y1 = y + hh;
        let ch = min_int(kids_rows(item, item.children@.len() as int, tw) as int, h - y1);
        let carea = Rect { x: area.x, y: (area.y + y1) as u16, width: area.width, height: ch as u16 };
        &&& steps_fit(items, start, ordered, level, area, k - 1)
        &&& y < h ==> {
            &&& ordered ==> start + k - 1 <= u32::MAX
            &&& item_text_rows(item, tw) <= usize::MAX
            &&& hh > 0 && item.children@.len() > 0 && y1 < h ==> {
                &&& kids_rows(item, item.children@.len() as int, tw) <= usize::MAX
                &&& {
                    proof {
                        assert(decreases_to!(items => items[k - 1]));
                    }
                    list_fits(item.children@, 1, false, level + 1, carea)
                }
            }
        }
    }
}

proof fn lemma_list_steps_done(items: Seq<ListItem>, start: nat, ordered: bool, level: nat, area: Rect, j: int, k: int)
    requires
        0 <= j <= k <= items.len(),
        list_steps(items, start, ordered, level, area, j).1 >= area.height,
    ensures
        list_steps(items, start, ordered, level, area, k) == list_steps(items, start, ordered, level, area, j),
    decreases k - j,
{
    if j < k {
        lemma_list_steps_done(items, start, ordered, level, area, j, k - 1);
    }
}

proof fn lemma_list_steps_bounded(items: Seq<ListItem>, start: nat, ordered: bool, level: nat, area: Rect, k: int)
    ensures
        0 <= list_steps(items, start, ordered, level, area, k).1 <= area.height,
    decreases k,
{
    if k > 0 && k <= items.len() {
        lemma_list_steps_bounded(items, start, ordered, level, area, k - 1);
    }
}

proof fn lemma_steps_fit_prefix(items: Seq<ListItem>, start: nat, ordered: bool, level: nat, area: Rect, j: int, k: int)
    requires
        0 <= j <= k <= items.len(),
        steps_fit(items, start, ordered, level, area, k),
    ensures
        steps_fit(items, start, ordered, level, area, j),
    decreases k - j,
{
    if j < k {
        lemma_steps_fit_prefix(items, start, ordered, level, area, j, k - 1);
    }
}

/// Append the placements of a list's items in `area` to `out` (see
/// [`list_layout`]).
fn place_list(
    items: &Vec<ListItem>,
    start: u32,
    ordered: bool,
    level: usize,
    area: Rect,
    out: &mut Vec<ItemPlacement>,
)
    requires
        list_fits(items@, start as nat, ordered, level as nat, area),
        area.y + area.height <= u16::MAX,
    ensures
        placement_views(final(out)@) == placement_views(old(out)@) + list_layout(
            items@,
            start as nat,
            ordered,
            level as nat,
            area,
        ),
    decreases items@,
{
    if area.width == 0 || area.height == 0 || items.len() == 0 {
        assert(placement_views(out@) =~= placement_views(old(out)@) + Seq::<(int, int, Seq<Seq<char>>)>::empty());
        return;
    }
    let ghost base = placement_views(old(out)@);
    let ghost len = items@.len() as int;
    let ghost h = area.height as int;
    let bw: usize = 2 * level + if ordered {
        4
    } else {
        2
    };
    let tw: usize = area.width as usize - bw;
    let prefix = repeat_string(' ', 2 * level);
    let mut cont = String::from_str(prefix.as_str());
    cont.append("  ");
    proof {
        reveal_strlit("  ");
        reveal_strlit(". ");
        reveal_strlit("• ");
    }
    let mut y: u16 = 0;
    let mut i: usize = 0;
    while i < items.len()
        invariant
            i <= items@.len(),
            base == placement_views(old(out)@),
            len == items@.len(),
            len > 0,
            h == area.height,
            area.height > 0,
            area.y + area.height <= u16::MAX,
            bw as nat == bullet_width(ordered, level as nat),
            area.width >= bw,
            tw as nat == (area.width - bullet_width(ordered, level as nat)) as nat,
            prefix@ == level_indent(level as nat),
            cont@ == level_indent(level as nat) + "  "@,
            steps_fit(items@, start as nat, ordered, level as nat, area, len),
            y as int == list_steps(items@, start as nat, ordered, level as nat, area, i as int).1,
            y <= area.height,
            placement_views(out@) == base + list_steps(items@, start as nat, ordered, level as nat, area, i as int).0,
        decreases items@.len() - i,
    {
        if y >= area.height {
            proof {
                lemma_list_steps_done(items@, start as nat, ordered, level as nat, area, i as int, len);
                assert(list_layout(items@, start as nat, ordered, level as nat, area) == list_steps(
                    items@,
                    start as nat,
                    ordered,
                    level as nat,
                    area,
                    len,
                ).0);
            }
            return;
        }
        proof {
            lemma_steps_fit_prefix(items@, start as nat, ordered, level as nat, area, i as int + 1, len);
        }
        let ghost prev = list_steps(items@, start as nat, ordered, level as nat, area, i as int);
        let item = &items[i];
        let th = list_item_text_height(item, tw);
        let ih = #[verifier::truncate] (th as u16);
        assert(ih as usize == th % 0x10000) by (bit_vector)
            requires
                ih == th as u16,
        ;
        let remaining = area.height - y;
        let hh = if ih <= remaining {
            ih
        } else {
            remaining
        };
        if hh > 0 {
            let mut first = String::from_str(prefix.as_str());
            if ordered {
                let n: u32 = start + i as u32;
                let digits = decimal_string(n as u64);
                first.append(digits.as_str());
                first.append(". ");
            } else {
                first.append("• ");
            }
            assert(first@ == bullet(ordered, level as nat, (start + i) as nat));
            let lines = mark_lines(&item.text, first.as_str(), cont.as_str());
            let ghost before = out@;
            out.push(ItemPlacement { y: area.y + y, height: hh, lines });
            let ghost pushed = placement_view(out@.last());
            assert(placement_views(out@) =~= placement_views(before).push(pushed));
            y = y + hh;
            if item.children.len() > 0 && y < area.height {
                let kh = kids_height(item, tw);
                let rem: usize = (area.height - y) as usize;
                let ch: usize = if kh <= rem {
                    kh
                } else {
                    rem
                };
                let carea = Rect { x: area.x, y: area.y + y, width: area.width, height: ch as u16 };
                proof {
                    assert(decreases_to!(items@ => items@[i as int]));
                }
                let ghost mid = placement_views(out@);
                place_list(&item.children, 1, false, level + 1, carea, out);
                y = y + ch as u16;
                assert(placement_views(out@) =~= base + (prev.0.push(pushed) + list_layout(
                    item.children@,
                    1,
                    false,
                    level as nat + 1,
                    carea,
                )));
            }
        }
        proof {
            assert(list_steps(items@, start as nat, ordered, level as nat, area, i as int + 1).1 == y);
        }
        i = i + 1;
    }
}

/// Where a list's items go in `area`, numbered from `start` when ordered:
/// see [`list_layout`].
pub fn list_placements(items: &Vec<ListItem>, start: u32, ordered: bool, area: Rect) -> (r: Vec<ItemPlacement>)
    requires
        list_fits(items@, start as nat, ordered, 0, area),
        area.y + area.height <= u16::MAX,
    ensures
        placement_views(r@) == list_layout(items@, start as nat, ordered, 0, area),
{
    let mut out: Vec<ItemPlacement> = Vec::new();
    place_list(items, start, ordered, 0, area, &mut out);
    assert(placement_views(out@) =~= list_layout(items@, start as nat, ordered, 0, area));
    out
}

/// Placements that lie in rows `lo..hi`, each at least one row high, one
/// below another in order.
pub open spec fn stacked_in(ps: Seq<(int, int, Seq<Seq<char>>)>, lo: int, hi: int) -> bool {
    &&& forall|i: int| 0 <= i < ps.len() ==> lo <= (#[trigger] ps[i]).0 && ps[i].1 > 0 && ps[i].0 + ps[i].1 <= hi
    &&& forall|i: int, j: int| 0 <= i < j < ps.len() ==> (#[trigger] ps[i]).0 + ps[i].1 <= (#[trigger] ps[j]).0
}

proof fn lemma_stacked_push(ps: Seq<(int, int, Seq<Seq<char>>)>, lo: int, mid: int, p: (int, int, Seq<Seq<char>>), hi: int)
    requires
        stacked_in(ps, lo, mid),
        mid <= p.0,
        p.1 > 0,
        p.0 + p.1 <= hi,
        lo <= mid,
    ensures
        stacked_in(ps.push(p), lo, hi),
{
    assert forall|i: int, j: int| 0 <= i < j < ps.push(p).len() implies (#[trigger] ps.push(p)[i]).0 + ps.push(p)[i].1
        <= (#[trigger] ps.push(p)[j]).0 by {
        if j < ps.len() {
            assert(ps.push(p)[i] == ps[i] && ps.push(p)[j] == ps[j]);
        }
    }
}

proof fn lemma_stacked_concat(a: Seq<(int, int, Seq<Seq<char>>)>, b: Seq<(int, int, Seq<Seq<char>>)>, lo: int, mid: int, hi: int)
    requires
        stacked_in(a, lo, mid),
        stacked_in(b, mid, hi),
        lo <= mid <= hi,
    ensures
        stacked_in(a + b, lo, hi),
{
    assert forall|i: int| 0 <= i < (a + b).len() implies lo <= (#[trigger] (a + b)[i]).0 && (a + b)[i].1 > 0 && (a
        + b)[i].0 + (a + b)[i].1 <= hi by {
        if i >= a.len() {
            assert((a + b)[i] == b[i - a.len()]);
        }
    }
    assert forall|i: int, j: int| 0 <= i < j < (a + b).len() implies (#[trigger] (a + b)[i]).0 + (a + b)[i].1 <= (
    #[trigger] (a + b)[j]).0 by {
        if j < a.len() {
        } else if i < a.len() {
            assert((a + b)[j] == b[j - a.len()]);
        } else {
            assert((a + b)[i] == b[i - a.len()]);
            assert((a + b)[j] == b[j - a.len()]);
        }
    }
}

proof fn lemma_task_steps_stacked(items: Seq<TaskListItem>, tw: nat, top: int, h: int, k: int)
    requires
        h >= 0,
    ensures
        0 <= task_steps(items, tw, top, h, k).1 <= h,
        stacked_in(task_steps(items, tw, top, h, k).0, top, top + task_steps(items, tw, top, h, k).1),
    decreases k,
{
    if k > 0 {
        lemma_task_steps_stacked(items, tw, top, h, k - 1);
        let (ps, y) = task_steps(items, tw, top, h, k - 1);
        if y < h {
            let hh = min_int(as_rows(text_rows(cell_views(items[k - 1].text@), tw) + 1), h - y);
            if hh != 0 {
                lemma_stacked_push(ps, top, top + y, (top + y, hh, task_item_lines(items[k - 1])), top + y + hh);
            }
        }
    }
}

/// Law: the items of a task list are drawn inside the area, each on at
/// least one row, one below another without overlapping.
pub proof fn law_task_items_stay_in_area(items: Seq<TaskListItem>, area: Rect)
    ensures
        stacked_in(task_list_layout(items, area), area.y as int, area.y + area.height),
{
    if !(area.width == 0 || area.height == 0 || items.len() == 0) {
        lemma_task_steps_stacked(items, (area.width - 3) as nat, area.y as int, area.height as int, items.len() as int);
    }
}

proof fn lemma_list_layout_stacked(items: Seq<ListItem>, start: nat, ordered: bool, level: nat, area: Rect)
    requires
        area.y + area.height <= u16::MAX,
    ensures
        stacked_in(list_layout(items, start, ordered, level, area), area.y as int, area.y + area.height),
    decreases items, items.len() + 1,
{
    if !(area.width == 0 || area.height == 0 || items.len() == 0) {
        lemma_list_steps_stacked(items, start, ordered, level, area, items.len() as int);
    }
}

proof fn lemma_list_steps_stacked(items: Seq<ListItem>, start: nat, ordered: bool, level: nat, area: Rect, k: int)
    requires
        area.y + area.height <= u16::MAX,
    ensures
        0 <= list_steps(items, start, ordered, level, area, k).1 <= area.height,
        stacked_in(
            list_steps(items, start, ordered, level, area, k).0,
            area.y as int,
            area.y + list_steps(items, start, ordered, level, area, k).1,
        ),
    decreases items, k,
{
    if k > 0 && k <= items.len() {
        lemma_list_steps_stacked(items, start, ordered, level, area, k - 1);
        let (ps, y) = list_steps(items, start, ordered, level, area, k - 1);
        let h = area.height as int;
        let tw = (area.width - bullet_width(ordered, level)) as nat;
        if y < h {
            let item = items[k - 1];
            let hh = min_int(as_rows(item_text_rows(item, tw)), h - y);
            if hh != 0 {
                let p = (area.y + y, hh, list_item_lines(item, ordered, level, (start + k - 1) as nat));
                let ps1 = ps.push(p);
                let y1 = y + hh;
                lemma_stacked_push(ps, area.y as int, area.y + y, p, area.y + y1);
                if item.children@.len() > 0 && y1 < h {
                    let ch = min_int(kids_rows(item, item.children@.len() as int, tw) as int, h - y1);
                    let carea = Rect { x: area.x, y: (area.y + y1) as u16, width: area.width, height: ch as u16 };
                    assert(carea.y == area.y + y1);
                    assert(carea.height == ch);
                    assert(decreases_to!(items => items[k - 1]));
                    lemma_list_layout_stacked(item.children@, 1, false, level + 1, carea);
                    lemma_stacked_concat(
                        ps1,
                        list_layout(item.children@, 1, false, level + 1, carea),
                        area.y as int,
                        area.y + y1,
                        area.y + y1 + ch,
                    );
                }
            }
        }
    }
}

/// Law: the items of a list, nested items included, are drawn inside the
/// area, each on at least one row, one below another without overlapping.
pub proof fn law_list_items_stay_in_area(items: Seq<ListItem>, start: nat, ordered: bool, area: Rect)
    requires
        area.y + area.height <= u16::MAX,
    ensures
        stacked_in(list_layout(items, start, ordered, 0, area), area.y as int, area.y + area.height),
{
    lemma_list_layout_stacked(items, start, ordered, 0, area);
}

} // verus!
