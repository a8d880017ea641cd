//! The filled header bar: a bordered block with a coloured header row and a
//! content area that can be collapsed. Its height counts wrapped rows by
//! display width; the header text is laid out cell by cell.

use vstd::prelude::*;
use crate::text::chars_of;
use crate::widgets::{char_width, columns_or_one, str_width, unicode_str_width};
use vstd::string::StringExecFns;

verus! {

broadcast use vstd::string::group_string_axioms;

/// A bordered block with a filled header row and a content area, shown
/// expanded or collapsed.
pub struct FilledHeaderBar {
    pub header_text: String,
    pub content: Vec<String>,
    pub collapsed: bool,
    pub collapsed_text: String,
}

/// Display width of one character taken alone.
pub open spec fn char_cols(c: char) -> nat {
    unicode_str_width(seq![c]) as nat
}

/// Rows used and width filled on the last row after laying out the first
/// `k` characters of `line` in rows of `max` columns: a character that
/// does not fit after others starts a new row, and one wider than a whole
/// row takes a row of its own.
pub open spec fn wrap_state(line: Seq<char>, max: nat, k: int) -> (nat, nat)
    decreases k,
{
    if k <= 0 {
        (1, 0)
    } else {
        let prev = wrap_state(line, max, k - 1);
        let w = char_cols(line[k - 1]);
        if prev.1 > 0 && prev.1 + w > max {
            if w > max { (prev.0 + 1, 0) } else { (prev.0 + 1, w) }
        } else {
            (prev.0, prev.1 + w)
        }
    }
}

/// Rows a line takes in `max` columns (one for an empty line or no room).
pub open spec fn wrapped_rows(line: Seq<char>, max: nat) -> nat {
    if unicode_str_width(line) == 0 || max == 0 {
        1
    } else {
        wrap_state(line, max, line.len() as int).0
    }
}

/// Rows the first `n` lines take in `max` columns.
pub open spec fn rows_upto(lines: Seq<String>, max: nat, n: int) -> nat
    decreases n,
{
    if n <= 0 { 0 } else { rows_upto(lines, max, n - 1) + wrapped_rows(lines[n - 1]@, max) }
}

/// The widget's height `width` columns wide: the top border and header row,
/// then one row when collapsed or without content, else the wrapped content
/// rows inside the borders.
pub open spec fn header_bar_height(b: FilledHeaderBar, width: nat) -> nat {
    if width == 0 {
        2
    } else if b.collapsed || b.content@.len() == 0 {
        3
    } else if width <= 2 {
        2 + b.content@.len()
    } else {
        2 + rows_upto(b.content@, (width - 2) as nat, b.content@.len() as int)
    }
}

/// A header character as drawn: line breaks become spaces.
pub open spec fn header_char(c: char) -> char {
    if c == '\n' || c == '\r' { ' ' } else { c }
}

/// The column where header character `k` is drawn (the text starts inside
/// the left border, at column 1).
pub open spec fn header_col(text: Seq<char>, k: int) -> int
    decreases k,
{
    if k <= 0 { 1 } else { header_col(text, k - 1) + columns_or_one(header_char(text[k - 1])) }
}

/// The header cells among the first `k` characters that fit in `width`
/// columns: (column, character) for each character whose last column is
/// inside the width.
pub open spec fn header_cells_upto(text: Seq<char>, width: int, k: int) -> Seq<(int, char)>
    decreases k,
{
    if k <= 0 {
        Seq::empty()
    } else {
        let prev = header_cells_upto(text, width, k - 1);
        let col = header_col(text, k - 1);
        let ch = header_char(text[k - 1]);
        if col + columns_or_one(ch) - 1 < width { prev.push((col, ch)) } else { prev }
    }
}

/// Columns only grow along the header.
proof fn lemma_header_col_mono(text: Seq<char>, i: int, j: int)
    requires
        0 <= i <= j,
    ensures
        header_col(text, i) <= header_col(text, j),
    decreases j - i,
{
    if i < j {
        lemma_header_col_mono(text, i, j - 1);
    }
}

/// Once the column passes the width, no later character is drawn.
proof fn lemma_no_cells_past(text: Seq<char>, width: int, k: int, j: int)
    requires
        0 <= k <= j,
        header_col(text, k) > width,
    ensures
        header_cells_upto(text, width, j) == header_cells_upto(text, width, k),
    decreases j - k,
{
    if k < j {
        lemma_no_cells_past(text, width, k, j - 1);
        lemma_header_col_mono(text, k, j - 1);
    }
}

/// Display width of one character taken alone.
fn char_str_width(c: char) -> (w: usize)
    ensures
        w == char_cols(c),
{
    let mut s = String::new();
    s.push(c);
    assert(s@ =~= seq![c]);
    str_width(s.as_str())
}

/// Rows `line` takes when wrapped in `max` columns.
pub fn count_wrapped_lines(line: &str, max: usize) -> (n: usize)
    requires
        line@.len() < usize::MAX,
    ensures
        n == wrapped_rows(line@, max as nat),
{
    let total = str_width(line);
    if total == 0 || max == 0 {
        return 1;
    }
    let cs = chars_of(line);
    let mut count: usize = 1;
    let mut cur: usize = 0;
    let mut k: usize = 0;
    while k < cs.len()
        invariant
            cs@ == line@,
            k <= cs@.len() < usize::MAX,
            count <= k + 1,
            (count as nat, cur as nat) == wrap_state(line@, max as nat, k as int),
        decreases cs@.len() - k,
    {
        let gw = char_str_width(cs[k]);
        if cur > 0 && (cur > max || gw > max - cur) {
            count = count + 1;
            if gw > max {
                cur = 0;
            } else {
                cur = gw;
            }
        } else {
            cur = cur + gw;
        }
        k = k + 1;
    }
    count
}

impl FilledHeaderBar {
    /// An expanded bar with the given header and no content; collapsed it
    /// shows "▼ Output".
    pub fn new(header_text: &str) -> (b: FilledHeaderBar)
        ensures
            b.header_text@ == header_text@,
            b.content@.len() == 0,
            !b.collapsed,
            b.collapsed_text@ == "▼ Output"@,
    {
        FilledHeaderBar {
            header_text: String::from_str(header_text),
            content: Vec::new(),
            collapsed: false,
            collapsed_text: String::from_str("▼ Output"),
        }
    }

    /// Set the content lines.
    pub fn content(self, content: Vec<String>) -> (b: FilledHeaderBar)
        ensures
            b == (FilledHeaderBar { content: content, ..self }),
    {
        FilledHeaderBar { content, ..self }
    }

    /// Collapse or expand the bar.
    pub fn collapsed(self, collapsed: bool) -> (b: FilledHeaderBar)
        ensures
            b == (FilledHeaderBar { collapsed: collapsed, ..self }),
    {
        FilledHeaderBar { collapsed, ..self }
    }

    /// Set the text shown when collapsed.
    pub fn collapsed_text(self, text: &str) -> (b: FilledHeaderBar)
        ensures
            b.collapsed_text@ == text@,
            b.header_text == self.header_text,
            b.content == self.content,
            b.collapsed == self.collapsed,
    {
        FilledHeaderBar { collapsed_text: String::from_str(text), ..self }
    }

    /// The widget's height `width` columns wide.
    pub fn height(&self, width: usize) -> (h: usize)
        requires
            header_bar_height(*self, width as nat) <= usize::MAX,
            forall|i: int| 0 <= i < self.content@.len() ==> (#[trigger] self.content@[i])@.len() < usize::MAX,
        ensures
            h == header_bar_height(*self, width as nat),
    {
        if width == 0 {
            return 2;
        }
        if self.collapsed || self.content.len() == 0 {
            return 3;
        }
        if width <= 2 {
            return 2 + self.content.len();
        }
        let eff = width - 2;
        let mut sum: usize = 0;
        let mut i: usize = 0;
        while i < self.content.len()
            invariant
                i <= self.content@.len(),
                eff == width - 2,
                width > 2,
                !self.collapsed && self.content@.len() > 0,
                header_bar_height(*self, width as nat) <= usize::MAX,
                forall|j: int| 0 <= j < self.content@.len() ==> (#[trigger] self.content@[j])@.len() < usize::MAX,
                sum == rows_upto(self.content@, eff as nat, i as int),
            decreases self.content@.len() - i,
        {
            proof {
                lemma_rows_upto_mono(self.content@, eff as nat, i as int + 1, self.content@.len() as int);
            }
            let n = count_wrapped_lines(self.content[i].as_str(), eff);
            sum = sum + n;
            i = i + 1;
        }
        2 + sum
    }

    /// The lines of the content area: the collapsed text, "[no output]" for
    /// an expanded bar without content, else the content.
    pub fn body_lines(&self) -> (v: Vec<String>)
        ensures
            self.collapsed ==> v@.len() == 1 && v@[0]@ == self.collapsed_text@,
            !self.collapsed && self.content@.len() == 0 ==> v@.len() == 1 && v@[0]@ == "[no output]"@,
            !self.collapsed && self.content@.len() > 0 ==> v@.len() == self.content@.len()
                && forall|i: int| 0 <= i < v@.len() ==> (#[trigger] v@[i])@ == self.content@[i]@,
    {
        let mut v: Vec<String> = Vec::new();
        if self.collapsed {
            v.push(String::from_str(self.collapsed_text.as_str()));
        } else if self.content.len() == 0 {
            v.push(String::from_str("[no output]"));
        } else {
            let mut i: usize = 0;
            while i < self.content.len()
                invariant
                    i <= self.content@.len(),
                    v@.len() == i,
                    forall|j: int| 0 <= j < i ==> (#[trigger] v@[j])@ == self.content@[j]@,
                decreases self.content@.len() - i,
            {
                v.push(String::from_str(self.content[i].as_str()));
                i = i + 1;
            }
        }
        v
    }

    /// The header cells drawn on a bar `width` columns wide: each header
    /// character (line breaks as spaces) at its column, for those whose
    /// last column is inside the width.
    pub fn header_cells(&self, width: usize) -> (r: Vec<(usize, char)>)
        ensures
            r@.len() == header_cells_upto(self.header_text@, width as int, self.header_text@.len() as int).len(),
            forall|i: int| 0 <= i < r@.len() ==> {
                let cell = header_cells_upto(self.header_text@, width as int, self.header_text@.len() as int)[i];
                (#[trigger] r@[i]).0 == cell.0 && r@[i].1 == cell.1
            },
    {
        let cs = chars_of(self.header_text.as_str());
        let ghost text = self.header_text@;
        let mut out: Vec<(usize, char)> = Vec::new();
        let mut used: usize = 0;
        let mut k: usize = 0;
        while k < cs.len()
            invariant
                cs@ == text,
                text == self.header_text@,
                k <= cs@.len(),
                used + 1 == header_col(text, k as int),
                used <= width,
                out@.len() == header_cells_upto(text, width as int, k as int).len(),
                forall|i: int| 0 <= i < out@.len() ==> {
                    let cell = header_cells_upto(text, width as int, k as int)[i];
                    (#[trigger] out@[i]).0 == cell.0 && out@[i].1 == cell.1
                },
            decreases cs@.len() - k,
        {
            let c = cs[k];
            let ch = if c == '\n' || c == '\r' { ' ' } else { c };
            let w: usize = match char_width(ch) {
                Some(w) => w,
                None => 1,
            };
            let ghost before = header_cells_upto(text, width as int, k as int);
            if w <= width - used {
                if w < width - used {
                    out.push((used + 1, ch));
                }
                used = used + w;
                k = k + 1;
                assert(header_cells_upto(text, width as int, k as int).len() == out@.len());
            } else {
                proof {
                    assert(header_col(text, k as int + 1) > width);
                    lemma_no_cells_past(text, width as int, k as int + 1, cs@.len() as int);
                    assert(header_cells_upto(text, width as int, k as int + 1) == before);
                }
                return out;
            }
        }
        out
    }
}

/// Rows of a prefix of the lines never exceed rows of a longer prefix.
proof fn lemma_rows_upto_mono(lines: Seq<String>, max: nat, i: int, j: int)
    requires
        0 <= i <= j,
    ensures
        rows_upto(lines, max, i) <= rows_upto(lines, max, j),
    decreases j - i,
{
    if i < j {
        lemma_rows_upto_mono(lines, max, i, j - 1);
    }
}

} // verus!
