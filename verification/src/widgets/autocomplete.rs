//! The autocomplete popup: where it stands above its anchor, how tall it
//! is, the window of items it shows and how long items are cut from the
//! front.

use vstd::prelude::*;
use crate::text::{chars_of, string_from_range, utf8_len};
use crate::widgets::{byte_len, char_width, columns_or_one, repeat_char, repeat_string, str_width, unicode_str_width, Rect};
use vstd::string::StringExecFns;

verus! {

broadcast use vstd::string::group_string_axioms;

/// A dropdown list anchored near a cursor column, growing upward from its
/// anchor row.
pub struct AutocompletePopup {
    pub items: Vec<String>,
    pub selected: usize,
    pub scroll_offset: usize,
    pub anchor_col: u16,
    pub anchor_row: u16,
    pub max_height: usize,
    pub min_width: usize,
    pub max_width: usize,
    /// When set, the caller positions the popup and `area` is not used.
    pub centered: bool,
    pub truncate_front: bool,
    pub truncate_max_width: usize,
    /// A footer line shown below a divider.
    pub footer: Option<String>,
    pub title: String,
}

/// The items, as character sequences.
pub open spec fn item_texts(p: AutocompletePopup) -> Seq<Seq<char>> {
    p.items@.map_values(|s: String| s@)
}

/// Number of item rows the popup shows at most.
pub open spec fn visible_items(p: AutocompletePopup) -> nat {
    if p.items@.len() <= p.max_height { p.items@.len() } else { p.max_height as nat }
}

/// Rows taken by the footer and its divider.
pub open spec fn footer_rows(p: AutocompletePopup) -> nat {
    if p.footer is Some { 2 } else { 0 }
}

/// The widget's height: the visible items, two borders and the footer.
pub open spec fn popup_height(p: AutocompletePopup) -> nat {
    visible_items(p) + 2 + footer_rows(p)
}

/// The largest UTF-8 byte length among the first `n` items (0 for none).
pub open spec fn longest_bytes(items: Seq<Seq<char>>, n: int) -> nat
    decreases n,
{
    if n <= 0 {
        0
    } else {
        let rest = longest_bytes(items, n - 1);
        let here = utf8_len(items[n - 1]);
        if here > rest { here } else { rest }
    }
}

/// The popup's width before it is cut to 16 bits: the longest item in
/// bytes plus two borders, kept between the minimum and maximum width.
pub open spec fn content_width(p: AutocompletePopup) -> nat {
    let want = longest_bytes(item_texts(p), p.items@.len() as int) + 2;
    if want < p.min_width {
        p.min_width as nat
    } else if want > p.max_width {
        p.max_width as nat
    } else {
        want
    }
}

/// The popup's width in cells.
pub open spec fn popup_width(p: AutocompletePopup) -> nat {
    content_width(p) % 65536
}

/// Where the popup stands on a terminal `tw` columns wide: none without
/// items or with under two rows above the anchor; otherwise at the anchor
/// column (moved left to fit), ending on the anchor row.
pub open spec fn popup_area(p: AutocompletePopup, tw: u16) -> Option<Rect> {
    if p.items@.len() == 0 {
        None
    } else {
        let full: nat = popup_height(p) % 65536;
        let w = popup_width(p);
        let room: int = if tw >= w { tw - w } else { 0 };
        let x0: int = if p.anchor_col + w > tw { room } else { p.anchor_col as int };
        let x: int = if x0 <= room { x0 } else { room };
        let h: nat = if full <= p.anchor_row { full } else { p.anchor_row as nat };
        if h < 2 {
            None
        } else {
            Some(Rect { x: x as u16, y: (p.anchor_row - h) as u16, width: w as u16, height: h as u16 })
        }
    }
}

/// How many trailing characters of `s` fit in `budget` columns, taking
/// them from the end while they fit (control characters count one column).
pub open spec fn kept_suffix(s: Seq<char>, budget: int) -> nat
    decreases s.len(),
{
    if s.len() == 0 {
        0
    } else if columns_or_one(s.last()) > budget {
        0
    } else {
        1 + kept_suffix(s.drop_last(), budget - columns_or_one(s.last()))
    }
}

/// `s` unchanged when it is at most `max_width` columns wide; otherwise `…`
/// followed by the longest tail of `s` that fits in the remaining columns
/// (at least two columns in all).
pub open spec fn front_truncated(s: Seq<char>, max_width: nat) -> Seq<char> {
    if unicode_str_width(s) <= max_width {
        s
    } else {
        let budget: int = if max_width >= 2 { max_width as int } else { 2 };
        let k = kept_suffix(s, budget - 1);
        seq!['…'] + s.skip(s.len() - k)
    }
}

/// Rows of item text the popup shows in `area`.
pub open spec fn content_rows(p: AutocompletePopup, area: Rect) -> nat {
    if p.footer is Some {
        if area.height >= 5 { (area.height - 4) as nat } else { 1 }
    } else {
        if area.height >= 3 { (area.height - 2) as nat } else { 1 }
    }
}

/// Items per page: the content rows, at most the maximum height.
pub open spec fn page_size(p: AutocompletePopup, area: Rect) -> nat {
    let rows = content_rows(p, area);
    if rows <= p.max_height { rows } else { p.max_height as nat }
}

/// The first item shown: the scroll offset moved just enough to show the
/// selected item.
pub open spec fn window_start(p: AutocompletePopup, area: Rect) -> int {
    let ps = page_size(p, area);
    if p.selected >= p.scroll_offset + ps {
        p.selected - ps + 1
    } else if p.selected < p.scroll_offset {
        p.selected as int
    } else {
        p.scroll_offset as int
    }
}

/// A row of the popup, as plain data.
pub enum PopupRowV {
    Item(Seq<char>, bool),
    Blank,
    Divider(Seq<char>),
    Footer(Seq<char>),
}

/// A row of the popup.
pub enum PopupRow {
    /// An item with its arrow column; whether it is the selected one.
    Item { text: String, selected: bool },
    /// An empty row below the items.
    Blank,
    /// The divider above the footer.
    Divider(String),
    /// The footer line.
    Footer(String),
}

pub open spec fn popup_row_view(r: PopupRow) -> PopupRowV {
    match r {
        PopupRow::Item { text, selected } => PopupRowV::Item(text@, selected),
        PopupRow::Blank => PopupRowV::Blank,
        PopupRow::Divider(s) => PopupRowV::Divider(s@),
        PopupRow::Footer(s) => PopupRowV::Footer(s@),
    }
}

/// The text of item `i` on its row: an arrow for the selected item, and the
/// item cut from the front when cutting is on and it is too wide.
pub open spec fn item_row_text(p: AutocompletePopup, inner: nat, i: int) -> Seq<char> {
    let item = item_texts(p)[i];
    let limit: nat = if inner >= 2 { (inner - 2) as nat } else { 0 };
    let arrow = if i == p.selected { "→ "@ } else { "  "@ };
    let shown = if p.truncate_front && unicode_str_width(item) > limit { front_truncated(item, limit) } else { item };
    arrow + shown
}

/// The rows the popup shows in `area` (none when the area is under 4
/// columns or 2 rows): the page of items, blank rows to fill the content
/// rows, then the divider and footer when there is a footer.
pub open spec fn popup_rows(p: AutocompletePopup, area: Rect) -> Option<Seq<PopupRowV>> {
    if area.width < 4 || area.height < 2 {
        None
    } else {
        let rows = content_rows(p, area);
        let start = window_start(p, area);
        let end: int = if start + page_size(p, area) <= p.items@.len() { start + page_size(p, area) } else { p.items@.len() as int };
        let inner: nat = if area.width >= 3 { (area.width - 2) as nat } else { 1 };
        let items = Seq::new((end - start) as nat, |k: int| PopupRowV::Item(item_row_text(p, inner, start + k), start + k == p.selected));
        let blanks: nat = if items.len() < rows { (rows - items.len()) as nat } else { 0 };
        let body = items + Seq::new(blanks, |_k: int| PopupRowV::Blank);
        Some(match p.footer {
            Some(f) => body + seq![PopupRowV::Divider(repeat_char('─', inner)), PopupRowV::Footer(f@)],
            None => body,
        })
    }
}

/// A placed popup ends on its anchor row, and when it is no wider than the
/// terminal it lies wholly inside the terminal's columns.
pub proof fn law_popup_area_fits(p: AutocompletePopup, tw: u16)
    ensures
        popup_area(p, tw) matches Some(r) ==> {
            &&& r.y + r.height == p.anchor_row
            &&& r.height >= 2
            &&& popup_width(p) <= tw ==> r.x + r.width <= tw
        },
{
}

/// The selected item is always on the page of items shown (when the page
/// holds at least one item).
pub proof fn law_popup_window_shows_selection(p: AutocompletePopup, area: Rect)
    requires
        page_size(p, area) >= 1,
    ensures
        window_start(p, area) <= p.selected < window_start(p, area) + page_size(p, area),
{
}

impl AutocompletePopup {
    /// A popup with no items, ten rows at most, 20 to 50 columns wide,
    /// titled " Files ".
    pub fn new() -> (p: AutocompletePopup)
        ensures
            p.items@.len() == 0,
            p.selected == 0,
            p.scroll_offset == 0,
            p.anchor_col == 0,
            p.anchor_row == 0,
            p.max_height == 10,
            p.min_width == 20,
            p.max_width == 50,
            !p.centered,
            !p.truncate_front,
            p.truncate_max_width == 60,
            p.footer is None,
            p.title@ == " Files "@,
    {
        AutocompletePopup {
            items: Vec::new(),
            selected: 0,
            scroll_offset: 0,
            anchor_col: 0,
            anchor_row: 0,
            max_height: 10,
            min_width: 20,
            max_width: 50,
            centered: false,
            truncate_front: false,
            truncate_max_width: 60,
            footer: None,
            title: String::from_str(" Files "),
        }
    }

    /// Set the items to display.
    pub fn items(self, items: Vec<String>) -> (p: AutocompletePopup)
        ensures
            p == (AutocompletePopup { items: items, ..self }),
    {
        AutocompletePopup { items, ..self }
    }

    /// Set the index of the selected item.
    pub fn selected(self, selected: usize) -> (p: AutocompletePopup)
        ensures
            p == (AutocompletePopup { selected: selected, ..self }),
    {
        AutocompletePopup { selected, ..self }
    }

    /// Set the scroll offset.
    pub fn scroll_offset(self, offset: usize) -> (p: AutocompletePopup)
        ensures
            p == (AutocompletePopup { scroll_offset: offset, ..self }),
    {
        AutocompletePopup { scroll_offset: offset, ..self }
    }

    /// Set the anchor column.
    pub fn anchor_col(self, col: u16) -> (p: AutocompletePopup)
        ensures
            p == (AutocompletePopup { anchor_col: col, ..self }),
    {
        AutocompletePopup { anchor_col: col, ..self }
    }

    /// Set the anchor row.
    pub fn anchor_row(self, row: u16) -> (p: AutocompletePopup)
        ensures
            p == (AutocompletePopup { anchor_row: row, ..self }),
    {
        AutocompletePopup { anchor_row: row, ..self }
    }

    /// Set the maximum number of item rows.
    pub fn max_height(self, height: usize) -> (p: AutocompletePopup)
        ensures
            p == (AutocompletePopup { max_height: height, ..self }),
    {
        AutocompletePopup { max_height: height, ..self }
    }

    /// Set the minimum width.
    pub fn min_width(self, width: usize) -> (p: AutocompletePopup)
        ensures
            p == (AutocompletePopup { min_width: width, ..self }),
    {
        AutocompletePopup { min_width: width, ..self }
    }

    /// Set the maximum width.
    pub fn max_width(self, width: usize) -> (p: AutocompletePopup)
        ensures
            p == (AutocompletePopup { max_width: width, ..self }),
    {
        AutocompletePopup { max_width: width, ..self }
    }

    /// Let the caller position the popup.
    pub fn centered(self, centered: bool) -> (p: AutocompletePopup)
        ensures
            p == (AutocompletePopup { centered: centered, ..self }),
    {
        AutocompletePopup { centered, ..self }
    }

    /// Cut long items from the front.
    pub fn truncate_front(self, truncate: bool) -> (p: AutocompletePopup)
        ensures
            p == (AutocompletePopup { truncate_front: truncate, ..self }),
    {
        AutocompletePopup { truncate_front: truncate, ..self }
    }

    /// Set the width past which items are cut.
    pub fn truncate_max_width(self, width: usize) -> (p: AutocompletePopup)
        ensures
            p == (AutocompletePopup { truncate_max_width: width, ..self }),
    {
        AutocompletePopup { truncate_max_width: width, ..self }
    }

    /// Set the footer line.
    pub fn footer(self, footer: String) -> (p: AutocompletePopup)
        ensures
            p == (AutocompletePopup { footer: Some(footer), ..self }),
    {
        AutocompletePopup { footer: Some(footer), ..self }
    }

    /// Set the title.
    pub fn title(self, title: String) -> (p: AutocompletePopup)
        ensures
            p == (AutocompletePopup { title: title, ..self }),
    {
        AutocompletePopup { title, ..self }
    }

    /// The widget's height: the visible items, two borders and the footer
    /// with its divider.
    pub fn height(&self) -> (h: usize)
        requires
            popup_height(*self) <= usize::MAX,
        ensures
            h == popup_height(*self),
    {
        let visible = if self.items.len() <= self.max_height { self.items.len() } else { self.max_height };
        let footer: usize = if self.footer.is_some() { 2 } else { 0 };
        visible + 2 + footer
    }

    /// The largest byte length among the items.
    fn longest_item(&self) -> (n: usize)
        ensures
            n == longest_bytes(item_texts(*self), self.items@.len() as int),
    {
        let mut best: usize = 0;
        let mut i: usize = 0;
        while i < self.items.len()
            invariant
                i <= self.items@.len(),
                best == longest_bytes(item_texts(*self), i as int),
            decreases self.items@.len() - i,
        {
            let n = byte_len(self.items[i].as_str());
            if n > best {
                best = n;
            }
            i = i + 1;
        }
        best
    }

    /// Where the popup stands on a terminal `terminal_width` columns wide
    /// (used when the popup is not centered by its caller).
    pub fn area(&self, terminal_width: u16, terminal_height: u16) -> (r: Option<Rect>)
        requires
            self.items@.len() > 0 ==> self.min_width <= self.max_width && self.anchor_col + popup_width(*self) <= u16::MAX,
        ensures
            r == popup_area(*self, terminal_width),
    {
        if self.items.len() == 0 {
            return None;
        }
        let visible = if self.items.len() <= self.max_height { self.items.len() } else { self.max_height };
        let footer: u16 = if self.footer.is_some() { 2 } else { 0 };
        let full: u16 = ((visible % 65536) as u16).wrapping_add(2u16 + footer);
        assert(full == popup_height(*self) % 65536);
        let longest = self.longest_item();
        let want: usize = if longest > usize::MAX - 2 { usize::MAX } else { longest + 2 };
        let clamped: usize = if want < self.min_width {
            self.min_width
        } else if want > self.max_width {
            self.max_width
        } else {
            want
        };
        assert(clamped == content_width(*self));
        let w: u16 = (clamped % 65536) as u16;
        let room: u16 = if terminal_width >= w { terminal_width - w } else { 0 };
        let x0: u16 = if self.anchor_col + w > terminal_width { room } else { self.anchor_col };
        let x: u16 = if x0 <= room { x0 } else { room };
        let h: u16 = if full <= self.anchor_row { full } else { self.anchor_row };
        if h < 2 {
            return None;
        }
        Some(Rect { x, y: self.anchor_row - h, width: w, height: h })
    }

    /// The text of item `i` on its row.
    fn item_row(&self, inner: usize, i: usize) -> (t: String)
        requires
            i < self.items@.len(),
        ensures
            t@ == item_row_text(*self, inner as nat, i as int),
    {
        let item = self.items[i].as_str();
        let limit: usize = if inner >= 2 { inner - 2 } else { 0 };
        let shown = if self.truncate_front && str_width(item) > limit {
            AutocompletePopup::truncate_front_str(item, limit)
        } else {
            String::from_str(item)
        };
        let mut t = if i == self.selected { String::from_str("→ ") } else { String::from_str("  ") };
        proof {
            reveal_strlit("→ ");
            reveal_strlit("  ");
        }
        t.append(shown.as_str());
        t
    }

    /// The content rows, and the first and past-the-last item shown.
    fn page_window(&self, area: Rect) -> (r: (usize, usize, usize))
        requires
            area.width >= 4 && area.height >= 2,
            self.footer is Some ==> area.height >= 4,
            self.scroll_offset + page_size(*self, area) <= usize::MAX,
            window_start(*self, area) <= self.items@.len(),
        ensures
            r.0 == content_rows(*self, area),
            r.1 == window_start(*self, area),
            r.2 == (if r.1 + page_size(*self, area) <= self.items@.len() { r.1 + page_size(*self, area) } else { self.items@.len() as int }),
    {
        let rows: usize = if self.footer.is_some() {
            if area.height >= 5 { (area.height - 4) as usize } else { 1 }
        } else {
            if area.height >= 3 { (area.height - 2) as usize } else { 1 }
        };
        let page: usize = if rows <= self.max_height { rows } else { self.max_height };
        assert(rows == content_rows(*self, area));
        assert(page == page_size(*self, area));
        let len = self.items.len();
        let start: usize = if self.selected >= self.scroll_offset + page {
            assert(window_start(*self, area) == self.selected - page + 1);
            self.selected - page + 1
        } else if self.selected < self.scroll_offset {
            self.selected
        } else {
            self.scroll_offset
        };
        let end: usize = if len - start <= page { len } else { start + page };
        (rows, start, end)
    }

    /// The item rows from `start` to `end`.
    fn item_rows(&self, inner: usize, start: usize, end: usize) -> (out: Vec<PopupRow>)
        requires
            start <= end <= self.items@.len(),
        ensures
            out@.map_values(|x: PopupRow| popup_row_view(x))
                == Seq::new((end - start) as nat, |k: int| PopupRowV::Item(item_row_text(*self, inner as nat, start + k), start + k == self.selected)),
    {
        let ghost items_spec = Seq::new((end - start) as nat, |k: int| PopupRowV::Item(item_row_text(*self, inner as nat, start + k), start + k == self.selected));
        let mut out: Vec<PopupRow> = Vec::new();
        let mut i: usize = start;
        while i < end
            invariant
                start <= i <= end <= self.items@.len(),
                items_spec == Seq::new((end - start) as nat, |k: int| PopupRowV::Item(item_row_text(*self, inner as nat, start + k), start + k == self.selected)),
                out@.map_values(|x: PopupRow| popup_row_view(x)) == items_spec.take(i - start),
            decreases end - i,
        {
            let text = self.item_row(inner, i);
            let row = PopupRow::Item { text, selected: i == self.selected };
            let ghost before = out@;
            out.push(row);
            proof {
                assert(out@.map_values(|x: PopupRow| popup_row_view(x))
                    =~= before.map_values(|x: PopupRow| popup_row_view(x)).push(popup_row_view(row)));
                assert(items_spec.take(i + 1 - start) =~= items_spec.take(i - start).push(items_spec[i - start]));
            }
            i = i + 1;
        }
        assert(items_spec.take(end - start) =~= items_spec);
        out
    }

    /// The rows the popup shows in `area`: the page of items around the
    /// selected one, blank rows to fill the content rows, then the divider
    /// and footer. None when the area is under 4 columns or 2 rows.
    pub fn rows(&self, area: Rect) -> (r: Option<Vec<PopupRow>>)
        requires
            area.width >= 4 && area.height >= 2 ==> {
                &&& (self.footer is Some ==> area.height >= 4)
                &&& self.scroll_offset + page_size(*self, area) <= usize::MAX
                &&& window_start(*self, area) <= self.items@.len()
            },
        ensures
            popup_rows(*self, area) == (match r {
                Some(v) => Some(v@.map_values(|x: PopupRow| popup_row_view(x))),
                None => None,
            }),
    {
        if area.width < 4 || area.height < 2 {
            return None;
        }
        let (rows, start, end) = self.page_window(area);
        let inner: usize = (area.width - 2) as usize;
        let mut out = self.item_rows(inner, start, end);
        let ghost body_items = out@.map_values(|x: PopupRow| popup_row_view(x));
        let count = end - start;
        let blanks: usize = if count < rows { rows - count } else { 0 };
        let mut b: usize = 0;
        while b < blanks
            invariant
                b <= blanks,
                out@.map_values(|x: PopupRow| popup_row_view(x))
                    == body_items + Seq::new(b as nat, |_k: int| PopupRowV::Blank),
            decreases blanks - b,
        {
            let ghost before = out@;
            out.push(PopupRow::Blank);
            b = b + 1;
            proof {
                assert(out@.map_values(|x: PopupRow| popup_row_view(x))
                    =~= before.map_values(|x: PopupRow| popup_row_view(x)).push(PopupRowV::Blank));
                assert(out@.map_values(|x: PopupRow| popup_row_view(x))
                    =~= body_items + Seq::new(b as nat, |_k: int| PopupRowV::Blank));
            }
        }
        let ghost body = out@.map_values(|x: PopupRow| popup_row_view(x));
        match &self.footer {
            Some(f) => {
                out.push(PopupRow::Divider(repeat_string('─', inner)));
                out.push(PopupRow::Footer(String::from_str(f.as_str())));
                assert(out@.map_values(|x: PopupRow| popup_row_view(x))
                    =~= body + seq![PopupRowV::Divider(repeat_char('─', inner as nat)), PopupRowV::Footer(f@)]);
            },
            None => {},
        }
        Some(out)
    }

    /// `s` cut from the front with `…` when it is wider than `max_width`
    /// columns, keeping the rightmost characters that fit.
    pub fn truncate_front_str(s: &str, max_width: usize) -> (r: String)
        ensures
            r@ == front_truncated(s@, max_width as nat),
    {
        let width = str_width(s);
        if width <= max_width {
            return String::from_str(s);
        }
        let budget: usize = if max_width >= 2 { max_width } else { 2 };
        let content_budget = budget - 1;
        let cs = chars_of(s);
        let len = cs.len();
        let mut kept: usize = 0;
        let mut n: usize = len;
        let mut full = false;
        assert(s@.take(len as int) =~= s@);
        while n > 0 && !full
            invariant
                n <= len,
                len == cs@.len(),
                cs@ == s@,
                kept <= content_budget,
                kept_suffix(s@, content_budget as int) == (len - n) + kept_suffix(s@.take(n as int), content_budget - kept),
                full ==> kept_suffix(s@.take(n as int), content_budget - kept) == 0,
            decreases n + (if full { 0int } else { 1int }),
        {
            let c = cs[n - 1];
            let w: usize = match char_width(c) {
                Some(w) => w,
                None => 1,
            };
            proof {
                assert(s@.take(n as int).drop_last() =~= s@.take(n - 1));
                assert(s@.take(n as int).last() == c);
            }
            if w > content_budget - kept {
                full = true;
            } else {
                kept = kept + w;
                n = n - 1;
            }
        }
        proof {
            if n == 0 {
                assert(s@.take(0) =~= Seq::<char>::empty());
            }
            assert(kept_suffix(s@, content_budget as int) == len - n);
            assert(s@.skip(s@.len() - (len - n)) =~= cs@.subrange(n as int, len as int));
        }
        let mut out = String::new();
        out.push('…');
        let tail = string_from_range(&cs, n, len);
        out.append(tail.as_str());
        proof {
            assert(out@ =~= seq!['…'] + s@.skip(s@.len() - kept_suffix(s@, content_budget as int)));
        }
        out
    }
}

} // verus!
