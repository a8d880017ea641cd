//! The full-screen prompt editor: the text wrapped into visual lines, where
//! the cursor falls among them, and the lines the overlay shows.

use vstd::prelude::*;
use crate::markdown::{split_text_lines, text_lines};
use crate::text::{char_utf8_len, lemma_utf8_len_take_mono, lemma_utf8_len_take_step, string_from_range, utf8_len};
use crate::widgets::{byte_len, repeat_char, repeat_string, Rect};
use vstd::string::StringExecFns;

verus! {

broadcast use vstd::string::group_string_axioms;

/// A full-screen text editor popup with a cursor. The cursor is a byte
/// index into the text.
pub struct PromptEditorOverlay {
    pub text: String,
    pub cursor_pos: usize,
    pub wrap_width: usize,
    pub title: String,
    pub hint: String,
}

/// The wrapped segments `(line, start, end)` of line `idx` (of `len`
/// characters) from character `start` on, each at most `w` characters.
pub open spec fn line_segments(idx: usize, start: usize, len: usize, w: usize) -> Seq<(usize, usize, usize)>
    decreases len - start,
{
    if start >= len || w == 0 {
        Seq::empty()
    } else {
        let end: usize = if len - start <= w { len } else { (start + w) as usize };
        seq![(idx, start, end)] + line_segments(idx, end, len, w)
    }
}

/// The segments of the first `n` lines, in order.
pub open spec fn segments_upto(ls: Seq<Seq<char>>, n: int, w: usize) -> Seq<(usize, usize, usize)>
    decreases n,
{
    if n <= 0 {
        Seq::empty()
    } else {
        segments_upto(ls, n - 1, w) + line_segments((n - 1) as usize, 0, ls[n - 1].len() as usize, w)
    }
}

/// The visual lines of `text` wrapped at `width` characters (at least one):
/// each line cut into segments of that many characters (an empty line gives
/// none), and one empty segment after the last line when the text ends with
/// a line break.
pub open spec fn visual_lines(text: Seq<char>, width: usize) -> Seq<(usize, usize, usize)> {
    let w: usize = if width == 0 { 1 } else { width };
    let ls = text_lines(text);
    let segs = segments_upto(ls, ls.len() as int, w);
    if text.len() > 0 && text.last() == '\n' {
        segs.push((ls.len() as usize, 0usize, 0usize))
    } else {
        segs
    }
}

/// Line `li` of `ls`, or an empty line past the last one.
pub open spec fn line_at(ls: Seq<Seq<char>>, li: usize) -> Seq<char> {
    if (li as int) < ls.len() {
        ls[li as int]
    } else {
        Seq::empty()
    }
}

/// Where the visual cursor stands when it is not on any segment.
pub open spec fn cursor_past_end(vls: Seq<(usize, usize, usize)>) -> (usize, usize) {
    if vls.len() == 0 {
        (0, 0)
    } else {
        (vls.len() as usize, 0)
    }
}

/// The byte position where line `li` of `ls` starts: the bytes of the
/// lines before it, each with its line break.
pub open spec fn line_offset(ls: Seq<Seq<char>>, li: int) -> int
    decreases li,
{
    if li <= 0 {
        0
    } else {
        line_offset(ls, li - 1) + utf8_len(line_at(ls, (li - 1) as usize)) + 1
    }
}

/// The visual position of byte `cursor`, scanning the segments from `i` on:
/// the first segment whose bytes (counted from the start of its line) hold
/// the cursor, and the cursor's column in it.
pub open spec fn cursor_from(ls: Seq<Seq<char>>, vls: Seq<(usize, usize, usize)>, cursor: int, i: int) -> (
    usize,
    usize,
)
    decreases vls.len() - i,
{
    if i >= vls.len() || i < 0 {
        cursor_past_end(vls)
    } else {
        let seg = vls[i];
        let line = line_at(ls, seg.0);
        let offset = line_offset(ls, seg.0 as int);
        let bs = utf8_len(line.take(seg.1 as int));
        let be = utf8_len(line.take(seg.2 as int));
        if offset + bs <= cursor && cursor <= offset + be {
            let col = cursor - offset - bs;
            let room = line.len() - seg.1;
            (i as usize, (if col <= room { col } else { room }) as usize)
        } else {
            cursor_from(ls, vls, cursor, i + 1)
        }
    }
}

/// The visual (line, column) of byte position `cursor` in `text` wrapped at
/// `width` characters.
pub open spec fn cursor_visual(text: Seq<char>, cursor: usize, width: usize) -> (usize, usize) {
    cursor_from(text_lines(text), visual_lines(text, width), cursor as int, 0)
}

proof fn lemma_line_offset_mono(ls: Seq<Seq<char>>, i: int, j: int)
    requires
        0 <= i <= j,
    ensures
        line_offset(ls, i) + (j - i) <= line_offset(ls, j),
    decreases j - i,
{
    if i < j {
        lemma_line_offset_mono(ls, i, j - 1);
    }
}

/// A line of the prompt editor overlay, as plain data.
pub enum EditorLineV {
    Rule(Seq<char>),
    Text(Seq<char>),
    Cursor(Seq<char>, char, Seq<char>),
    Blank,
    Hint(Seq<char>),
}

/// A line of the prompt editor overlay.
pub enum EditorLine {
    /// An accent separator the full width of the overlay.
    Rule(String),
    /// A segment of text.
    Text(String),
    /// The segment holding the cursor: the text before it, the character
    /// under the block cursor (a space at the end of a segment), the rest.
    Cursor { before: String, under: char, after: String },
    /// An empty row below the text.
    Blank,
    /// The hint bar.
    Hint(String),
}

pub open spec fn editor_line_view(l: EditorLine) -> EditorLineV {
    match l {
        EditorLine::Rule(s) => EditorLineV::Rule(s@),
        EditorLine::Text(s) => EditorLineV::Text(s@),
        EditorLine::Cursor { before, under, after } => EditorLineV::Cursor(before@, under, after@),
        EditorLine::Blank => EditorLineV::Blank,
        EditorLine::Hint(s) => EditorLineV::Hint(s@),
    }
}

/// Row `i` of the visual lines: its text, the cursor row split around the
/// cursor, or a blank row past the end.
pub open spec fn editor_row(
    ls: Seq<Seq<char>>,
    vls: Seq<(usize, usize, usize)>,
    cursor: (usize, usize),
    i: int,
) -> EditorLineV {
    if 0 <= i < vls.len() {
        let seg = vls[i];
        let chars = line_at(ls, seg.0);
        if i == cursor.0 as int {
            let at = seg.1 + cursor.1;
            if at < seg.2 {
                EditorLineV::Cursor(chars.subrange(seg.1 as int, at), chars[at], chars.subrange(at + 1, seg.2 as int))
            } else {
                EditorLineV::Cursor(chars.subrange(seg.1 as int, at), ' ', Seq::empty())
            }
        } else {
            EditorLineV::Text(chars.subrange(seg.1 as int, seg.2 as int))
        }
    } else {
        EditorLineV::Blank
    }
}

/// The first visual line shown: the cursor line is centred in `rows` rows
/// where possible, without scrolling past the last visual line.
pub open spec fn editor_scroll(cursor_line: nat, total: nat, rows: nat) -> nat {
    let half = rows / 2;
    let start: nat = if cursor_line >= half { (cursor_line - half) as nat } else { 0 };
    if start + rows > total {
        if total >= rows { (total - rows) as nat } else { 0 }
    } else {
        start
    }
}

/// The lines the overlay shows in `area`, or none when the area is too small
/// (under 10 columns or 4 rows): a separator, the text rows, a separator and
/// the hint bar.
pub open spec fn editor_lines(text: Seq<char>, cursor: usize, hint: Seq<char>, area: Rect) -> Option<Seq<EditorLineV>> {
    if area.width < 10 || area.height < 4 {
        None
    } else {
        let tw: usize = (area.width - 2) as usize;
        let rows: nat = if area.height >= 6 { (area.height - 5) as nat } else { 1 };
        let vls = visual_lines(text, tw);
        let total: nat = if vls.len() == 0 { 1 } else { vls.len() };
        let cur = cursor_visual(text, cursor, tw);
        let scroll = editor_scroll(cur.0 as nat, total, rows);
        let rule = EditorLineV::Rule(repeat_char('─', area.width as nat));
        Some(
            seq![rule] + Seq::new(rows, |k: int| editor_row(text_lines(text), vls, cur, scroll + k))
                + seq![rule, EditorLineV::Hint(hint)],
        )
    }
}

impl PromptEditorOverlay {
    /// An editor on `text`, with the cursor after the first byte (at 0 for
    /// empty text).
    pub fn new(text: &str) -> (e: PromptEditorOverlay)
        ensures
            e.text@ == text@,
            e.cursor_pos == (if utf8_len(text@) == 0 { 0usize } else { 1usize }),
            e.wrap_width == 80,
            e.title@ == " Prompt Editor "@,
            e.hint@ == "Enter: send  Esc: close  Ctrl+E"@,
    {
        let n = byte_len(text);
        PromptEditorOverlay {
            text: String::from_str(text),
            cursor_pos: if n < 1 { n } else { 1 },
            wrap_width: 80,
            title: String::from_str(" Prompt Editor "),
            hint: String::from_str("Enter: send  Esc: close  Ctrl+E"),
        }
    }

    /// Set the cursor position (a byte index).
    pub fn cursor_pos(self, pos: usize) -> (e: PromptEditorOverlay)
        ensures
            e == (PromptEditorOverlay { cursor_pos: pos, ..self }),
    {
        PromptEditorOverlay { cursor_pos: pos, ..self }
    }

    /// Set the wrap width.
    pub fn wrap_width(self, width: usize) -> (e: PromptEditorOverlay)
        ensures
            e == (PromptEditorOverlay { wrap_width: width, ..self }),
    {
        PromptEditorOverlay { wrap_width: width, ..self }
    }

    /// Set the title text.
    pub fn title(self, title: String) -> (e: PromptEditorOverlay)
        ensures
            e == (PromptEditorOverlay { title: title, ..self }),
    {
        PromptEditorOverlay { title, ..self }
    }

    /// Set the hint bar text.
    pub fn hint(self, hint: String) -> (e: PromptEditorOverlay)
        ensures
            e == (PromptEditorOverlay { hint: hint, ..self }),
    {
        PromptEditorOverlay { hint, ..self }
    }

    /// The height of the widget: it fills the whole area.
    pub fn height(&self, area_height: usize) -> (h: usize)
        ensures
            h == area_height,
    {
        area_height
    }

    /// The visual lines of the text wrapped at `width` characters.
    pub fn build_visual_lines(&self, width: usize) -> (r: Vec<(usize, usize, usize)>)
        ensures
            r@ == visual_lines(self.text@, width),
    {
        let w: usize = if width == 0 { 1 } else { width };
        let lines = split_text_lines(self.text.as_str());
        let ghost ls = text_lines(self.text@);
        let mut out: Vec<(usize, usize, usize)> = Vec::new();
        let mut i: usize = 0;
        while i < lines.len()
            invariant
                i <= lines@.len(),
                w >= 1,
                lines@.len() == ls.len(),
                forall|j: int| 0 <= j < lines@.len() ==> (#[trigger] lines@[j])@ == ls[j],
                out@ == segments_upto(ls, i as int, w),
            decreases lines@.len() - i,
        {
            let len = lines[i].len();
            let ghost base = out@;
            let mut start: usize = 0;
            while start < len
                invariant
                    start <= len,
                    w >= 1,
                    base + line_segments(i, 0, len, w) == out@ + line_segments(i, start, len, w),
                decreases len - start,
            {
                let end: usize = if len - start <= w { len } else { start + w };
                let ghost rest = line_segments(i, end, len, w);
                assert(line_segments(i, start, len, w) == seq![(i, start, end)] + rest);
                out.push((i, start, end));
                assert(out@ + rest =~= base + line_segments(i, 0, len, w));
                start = end;
            }
            assert(line_segments(i, start, len, w) =~= Seq::<(usize, usize, usize)>::empty());
            assert(out@ =~= base + line_segments(i, 0, len, w));
            assert(ls[i as int].len() == len);
            assert(segments_upto(ls, i as int + 1, w) == segments_upto(ls, i as int, w) + line_segments(i, 0, len, w));
            i = i + 1;
        }
        let cs = crate::text::chars_of(self.text.as_str());
        let n = cs.len();
        if n > 0 && cs[n - 1] == '\n' {
            out.push((lines.len(), 0, 0));
        }
        out
    }

    /// The visual (line, column) of the cursor with the text wrapped at
    /// `width` characters; past the last segment when no segment holds it.
    pub fn cursor_visual_pos(&self, width: usize) -> (r: (usize, usize))
        ensures
            r == cursor_visual(self.text@, self.cursor_pos, width),
    {
        let vls = self.build_visual_lines(width);
        let lines = split_text_lines(self.text.as_str());
        let ghost ls = text_lines(self.text@);
        let empty: Vec<char> = Vec::new();
        let cursor = self.cursor_pos;
        let mut i: usize = 0;
        while i < vls.len()
            invariant
                i <= vls@.len(),
                vls@ == visual_lines(self.text@, width),
                cursor == self.cursor_pos,
                lines@.len() == ls.len(),
                ls == text_lines(self.text@),
                forall|j: int| 0 <= j < lines@.len() ==> (#[trigger] lines@[j])@ == ls[j],
                empty@ == Seq::<char>::empty(),
                cursor_from(ls, vls@, cursor as int, i as int) == cursor_visual(self.text@, self.cursor_pos, width),
            decreases vls@.len() - i,
        {
            let (li, s, e) = vls[i];
            let line: &Vec<char> = if li < lines.len() { &lines[li] } else { &empty };
            assert(line@ == line_at(ls, li));
            proof {
                segment_within_line(self.text@, width, i as int);
            }
            if let Some(offset) = line_offset_capped(&lines, Ghost(ls), li, cursor) {
                let cap = cursor - offset;
                let bs = prefix_bytes_capped(line, s, cap);
                let be = prefix_bytes_capped(line, e, cap);
                let be_reaches = match be {
                    Some(n) => n == cap,
                    None => true,
                };
                if let Some(b) = bs {
                    if be_reaches {
                        let col = cap - b;
                        let room = line.len() - s;
                        return (i, if col <= room { col } else { room });
                    }
                }
            }
            i = i + 1;
        }
        if vls.len() == 0 {
            (0, 0)
        } else {
            (vls.len(), 0)
        }
    }
}

/// Where line `li` starts, in bytes, when that is not past `cursor`.
fn line_offset_capped(lines: &Vec<Vec<char>>, Ghost(ls): Ghost<Seq<Seq<char>>>, li: usize, cursor: usize) -> (r:
    Option<usize>)
    requires
        lines@.len() == ls.len(),
        forall|j: int| 0 <= j < lines@.len() ==> (#[trigger] lines@[j])@ == ls[j],
    ensures
        match r {
            Some(n) => n == line_offset(ls, li as int) && n <= cursor,
            None => line_offset(ls, li as int) > cursor,
        },
{
    let empty: Vec<char> = Vec::new();
    let mut off: usize = 0;
    let mut j: usize = 0;
    while j < li
        invariant
            j <= li,
            lines@.len() == ls.len(),
            forall|k: int| 0 <= k < lines@.len() ==> (#[trigger] lines@[k])@ == ls[k],
            empty@ == Seq::<char>::empty(),
            off == line_offset(ls, j as int),
            off <= cursor,
        decreases li - j,
    {
        let line: &Vec<char> = if j < lines.len() { &lines[j] } else { &empty };
        assert(line@ == line_at(ls, j));
        let cap = cursor - off;
        let whole = if cap == 0 { None } else { prefix_bytes_capped(line, line.len(), cap - 1) };
        proof {
            assert(line@.take(line@.len() as int) =~= line@);
        }
        match whole {
            Some(n) => {
                off = off + n + 1;
            },
            None => {
                proof {
                    lemma_line_offset_mono(ls, j as int + 1, li as int);
                }
                return None;
            },
        }
        j = j + 1;
    }
    Some(off)
}

/// The overlay's lines fill the area inside its top and bottom borders:
/// in an area at least 10 columns wide and 6 rows tall there are exactly
/// two lines fewer than rows.
pub proof fn law_editor_lines_fill_inner_area(text: Seq<char>, cursor: usize, hint: Seq<char>, area: Rect)
    requires
        area.width >= 10,
        area.height >= 6,
    ensures
        editor_lines(text, cursor, hint, area) matches Some(v) && v.len() == area.height - 2,
{
}

/// The line holding the cursor is always among the rows shown: scrolling
/// centres it where it can and never scrolls it out of view.
pub proof fn law_editor_scroll_shows_cursor_line(cursor_line: nat, total: nat, rows: nat)
    requires
        cursor_line < total,
        rows >= 1,
    ensures
        editor_scroll(cursor_line, total, rows) <= cursor_line < editor_scroll(cursor_line, total, rows) + rows,
{
}

/// When the cursor lands on a segment, its column stays within the
/// segment's line.
proof fn lemma_cursor_from_bounds(
    ls: Seq<Seq<char>>,
    vls: Seq<(usize, usize, usize)>,
    cursor: int,
    i: int,
)
    requires
        0 <= i,
        vls.len() <= usize::MAX,
        forall|j: int| 0 <= j < vls.len() ==> (#[trigger] vls[j]).1 <= line_at(ls, vls[j].0).len(),
    ensures
        ({
            let r = cursor_from(ls, vls, cursor, i);
            (r.0 as int) < vls.len() ==> r.1 + vls[r.0 as int].1 <= line_at(ls, vls[r.0 as int].0).len()
        }),
    decreases vls.len() - i,
{
    if i < vls.len() {
        let seg = vls[i];
        let line = line_at(ls, seg.0);
        let offset = line_offset(ls, seg.0 as int);
        let bs = utf8_len(line.take(seg.1 as int));
        let be = utf8_len(line.take(seg.2 as int));
        if !(offset + bs <= cursor && cursor <= offset + be) {
            lemma_cursor_from_bounds(ls, vls, cursor, i + 1);
        }
    }
}

/// The cursor's visual column stays within its segment's line.
proof fn lemma_cursor_visual_bounds(text: Seq<char>, cursor: usize, width: usize)
    requires
        text_lines(text).len() <= usize::MAX,
        visual_lines(text, width).len() <= usize::MAX,
    ensures
        ({
            let vls = visual_lines(text, width);
            let r = cursor_visual(text, cursor, width);
            (r.0 as int) < vls.len() ==> r.1 + vls[r.0 as int].1 <= line_at(text_lines(text), vls[r.0 as int].0).len()
        }),
{
    let vls = visual_lines(text, width);
    assert forall|j: int| 0 <= j < vls.len() implies (#[trigger] vls[j]).1 <= line_at(text_lines(text), vls[j].0).len() by {
        segment_within_line(text, width, j);
    }
    lemma_cursor_from_bounds(text_lines(text), vls, cursor as int, 0);
}

/// One row of the overlay's text area.
fn editor_row_line(
    lines: &Vec<Vec<char>>,
    Ghost(ls): Ghost<Seq<Seq<char>>>,
    vls: &Vec<(usize, usize, usize)>,
    cur: (usize, usize),
    i: usize,
    empty: &Vec<char>,
) -> (r: EditorLine)
    requires
        lines@.len() == ls.len(),
        forall|j: int| 0 <= j < lines@.len() ==> (#[trigger] lines@[j])@ == ls[j],
        empty@ == Seq::<char>::empty(),
        forall|j: int| 0 <= j < vls@.len() ==> (#[trigger] vls@[j]).1 <= vls@[j].2 <= line_at(ls, vls@[j].0).len(),
        (cur.0 as int) < vls@.len() ==> cur.1 + vls@[cur.0 as int].1 <= line_at(ls, vls@[cur.0 as int].0).len(),
    ensures
        editor_line_view(r) == editor_row(ls, vls@, cur, i as int),
{
    if i < vls.len() {
        let (li, s, e) = vls[i];
        let chars: &Vec<char> = if li < lines.len() { &lines[li] } else { empty };
        assert(chars@ == line_at(ls, li));
        let clen = chars.len();
        if i == cur.0 {
            let at = s + cur.1;
            let before = string_from_range(chars, s, at);
            if at < e {
                let under = chars[at];
                let after = string_from_range(chars, at + 1, e);
                EditorLine::Cursor { before, under, after }
            } else {
                EditorLine::Cursor { before, under: ' ', after: String::new() }
            }
        } else {
            EditorLine::Text(string_from_range(chars, s, e))
        }
    } else {
        EditorLine::Blank
    }
}


impl PromptEditorOverlay {
    /// The lines the overlay shows in `area` (none when the area is under
    /// 10 columns or 4 rows): an accent separator, the text rows scrolled to
    /// centre the cursor, a separator and the hint bar.
    pub fn lines(&self, area: Rect) -> (r: Option<Vec<EditorLine>>)
        requires
            area.width < 10 || area.height != 4,
        ensures
            editor_lines(self.text@, self.cursor_pos, self.hint@, area) == (match r {
                Some(v) => Some(v@.map_values(|l: EditorLine| editor_line_view(l))),
                None => None,
            }),
    {
        if area.width < 10 || area.height < 4 {
            return None;
        }
        let width = area.width as usize;
        let tw = width - 2;
        let rows: usize = if area.height >= 6 { (area.height - 5) as usize } else { 1 };
        let vls = self.build_visual_lines(tw);
        let total: usize = if vls.len() == 0 { 1 } else { vls.len() };
        let cur = self.cursor_visual_pos(tw);
        let lines = split_text_lines(self.text.as_str());
        let ghost ls = text_lines(self.text@);
        let empty: Vec<char> = Vec::new();
        let nlines = lines.len();
        let nvls = vls.len();
        assert(ls.len() == nlines);
        proof {
            lemma_cursor_visual_bounds(self.text@, self.cursor_pos, tw);
            assert forall|j: int| 0 <= j < vls@.len() implies (#[trigger] vls@[j]).1 <= vls@[j].2 <= line_at(ls, vls@[j].0).len() by {
                segment_within_line(self.text@, tw, j);
            }
        }
        let half = rows / 2;
        let start = if cur.0 >= half { cur.0 - half } else { 0 };
        let scroll = if start > total || total - start < rows {
            if total >= rows { total - rows } else { 0 }
        } else {
            start
        };
        let ghost scroll_spec = editor_scroll(cur.0 as nat, total as nat, rows as nat);
        assert(scroll == scroll_spec);
        let rule_text = repeat_string('─', width);
        let ghost rule = EditorLineV::Rule(repeat_char('─', area.width as nat));
        let mut out: Vec<EditorLine> = Vec::new();
        out.push(EditorLine::Rule(rule_text));
        let mut k: usize = 0;
        while k < rows
            invariant
                k <= rows,
                scroll + rows <= (if total >= rows { total } else { rows }),
                total == (if vls@.len() == 0 { 1 } else { vls@.len() }),
                scroll == scroll_spec,
                lines@.len() == ls.len(),
                forall|j: int| 0 <= j < lines@.len() ==> (#[trigger] lines@[j])@ == ls[j],
                empty@ == Seq::<char>::empty(),
                forall|j: int| 0 <= j < vls@.len() ==> (#[trigger] vls@[j]).1 <= vls@[j].2 <= line_at(ls, vls@[j].0).len(),
                (cur.0 as int) < vls@.len() ==> cur.1 + vls@[cur.0 as int].1 <= line_at(ls, vls@[cur.0 as int].0).len(),
                out@.map_values(|l: EditorLine| editor_line_view(l))
                    == seq![rule] + Seq::new(k as nat, |j: int| editor_row(ls, vls@, cur, scroll_spec + j)),
            decreases rows - k,
        {
            let row = editor_row_line(&lines, Ghost(ls), &vls, cur, scroll + k, &empty);
            let ghost before = out@;
            let ghost g = |j: int| editor_row(ls, vls@, cur, scroll_spec + j);
            assert(editor_line_view(row) == g(k as int));
            out.push(row);
            proof {
                assert(out@ == before.push(row));
                assert(out@.map_values(|l: EditorLine| editor_line_view(l))
                    =~= before.map_values(|l: EditorLine| editor_line_view(l)).push(editor_line_view(row)));
                assert(Seq::new(k as nat + 1, g) =~= Seq::new(k as nat, g).push(g(k as int)));
            }
            k = k + 1;
            assert(out@.map_values(|l: EditorLine| editor_line_view(l))
                =~= seq![rule] + Seq::new(k as nat, g));
        }
        let ghost body = out@.map_values(|l: EditorLine| editor_line_view(l));
        out.push(EditorLine::Rule(repeat_string('─', width)));
        out.push(EditorLine::Hint(String::from_str(self.hint.as_str())));
        proof {
            assert(out@.map_values(|l: EditorLine| editor_line_view(l))
                =~= body + seq![rule, EditorLineV::Hint(self.hint@)]);
        }
        Some(out)
    }
}

/// Every segment lies within its line: `start <= end <= len`.
proof fn segment_within_line(text: Seq<char>, width: usize, i: int)
    requires
        0 <= i < visual_lines(text, width).len(),
        text_lines(text).len() <= usize::MAX,
    ensures
        ({
            let seg = visual_lines(text, width)[i];
            seg.1 <= seg.2 <= line_at(text_lines(text), seg.0).len()
        }),
{
    let w: usize = if width == 0 { 1 } else { width };
    let ls = text_lines(text);
    let segs = segments_upto(ls, ls.len() as int, w);
    if i < segs.len() {
        lemma_segments_upto_within(ls, ls.len() as int, w, i);
    }
}

proof fn lemma_segments_upto_within(ls: Seq<Seq<char>>, n: int, w: usize, i: int)
    requires
        0 <= n <= ls.len(),
        0 <= i < segments_upto(ls, n, w).len(),
        ls.len() <= usize::MAX,
    ensures
        ({
            let seg = segments_upto(ls, n, w)[i];
            seg.1 <= seg.2 <= line_at(ls, seg.0).len()
        }),
    decreases n,
{
    if n > 0 {
        let prev = segments_upto(ls, n - 1, w);
        let last = line_segments((n - 1) as usize, 0, ls[n - 1].len() as usize, w);
        assert(segments_upto(ls, n, w) == prev + last);
        if i < prev.len() {
            lemma_segments_upto_within(ls, n - 1, w, i);
        } else {
            lemma_line_segments_within((n - 1) as usize, 0, ls[n - 1].len() as usize, w, i - prev.len());
        }
    }
}

proof fn lemma_line_segments_within(idx: usize, start: usize, len: usize, w: usize, k: int)
    requires
        0 <= k < line_segments(idx, start, len, w).len(),
    ensures
        ({
            let seg = line_segments(idx, start, len, w)[k];
            seg.0 == idx && start <= seg.1 <= seg.2 <= len
        }),
    decreases len - start,
{
    if !(start >= len || w == 0) {
        let end: usize = if len - start <= w { len } else { (start + w) as usize };
        if k > 0 {
            lemma_line_segments_within(idx, end, len, w, k - 1);
        }
    }
}

/// The UTF-8 byte count of the first `k` characters of `line`, when it is
/// at most `cap`.
fn prefix_bytes_capped(line: &Vec<char>, k: usize, cap: usize) -> (r: Option<usize>)
    requires
        k <= line@.len(),
    ensures
        match r {
            Some(n) => n == utf8_len(line@.take(k as int)) && n <= cap,
            None => utf8_len(line@.take(k as int)) > cap,
        },
{
    let mut sum: usize = 0;
    let mut j: usize = 0;
    proof {
        assert(line@.take(0) =~= Seq::<char>::empty());
        assert(vstd::utf8::encode_utf8(Seq::<char>::empty()) =~= Seq::<u8>::empty());
    }
    while j < k
        invariant
            j <= k <= line@.len(),
            sum == utf8_len(line@.take(j as int)),
            sum <= cap,
        decreases k - j,
    {
        let c = char_utf8_len(line[j]);
        proof {
            lemma_utf8_len_take_step(line@, j as int);
        }
        if c > cap - sum {
            proof {
                lemma_utf8_len_take_mono(line@, j as int + 1, k as int);
            }
            return None;
        }
        sum = sum + c;
        j = j + 1;
    }
    Some(sum)
}

} // verus!
