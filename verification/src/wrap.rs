//! Word-boundary wrapping: how many rows a text needs at a given width, and
//! the rows themselves for table cells.
//!
//! Words are the maximal runs of non-white-space characters. Rows are filled
//! greedily; a word wider than the row is broken into row-sized pieces.

use vstd::prelude::*;
use crate::text::{chars_of, is_white_space, is_white_space_char, string_from_chars, string_from_range};

verus! {

/// Words completed, and the word in progress, after reading `s[..i]`.
pub open spec fn scan_words(s: Seq<char>, i: int) -> (Seq<Seq<char>>, Seq<char>)
    decreases i,
{
    if i <= 0 {
        (seq![], seq![])
    } else {
        let prev = scan_words(s, i - 1);
        if is_white_space(s[i - 1]) {
            if prev.1.len() > 0 {
                (prev.0.push(prev.1), seq![])
            } else {
                (prev.0, seq![])
            }
        } else {
            (prev.0, prev.1.push(s[i - 1]))
        }
    }
}

/// The words of `s`, as `str::split_whitespace` yields them.
pub open spec fn words(s: Seq<char>) -> Seq<Seq<char>> {
    let st = scan_words(s, s.len() as int);
    if st.1.len() > 0 {
        st.0.push(st.1)
    } else {
        st.0
    }
}

/// `a / b` rounded up.
pub open spec fn ceil_div(a: nat, b: nat) -> nat {
    if a % b == 0 {
        a / b
    } else {
        a / b + 1
    }
}

/// One word of `w` characters added to a row count: `(rows, used)` where
/// `used` is the width taken on the open row (0: no open row).
pub open spec fn rows_step(st: (nat, nat), w: nat, width: nat) -> (nat, nat) {
    if w > width {
        (st.0 + ceil_div(w, width), 0)
    } else if st.1 == 0 {
        (st.0 + 1, w)
    } else if st.1 + 1 + w <= width {
        (st.0, st.1 + 1 + w)
    } else {
        (st.0 + 1, w)
    }
}

/// Row count after placing the words `ws` in order.
pub open spec fn rows_fold(ws: Seq<Seq<char>>, width: nat) -> (nat, nat)
    decreases ws.len(),
{
    if ws.len() == 0 {
        (0, 0)
    } else {
        rows_step(rows_fold(ws.drop_last(), width), ws.last().len(), width)
    }
}

/// Rows that word wrapping of `s` at `width` takes (at least one).
pub open spec fn word_wrap_rows(s: Seq<char>, width: nat) -> nat {
    if s.len() == 0 {
        1
    } else {
        let n = rows_fold(words(s), width).0;
        if n == 0 {
            1
        } else {
            n
        }
    }
}

/// Rows that `wrapped_line_count` reports.
pub open spec fn line_count(s: Seq<char>, width: nat) -> nat {
    if width == 0 || s.len() == 0 {
        1
    } else {
        word_wrap_rows(s, width)
    }
}

proof fn lemma_ceil_div_le(w: nat, width: nat)
    requires
        width >= 1,
        w >= 1,
    ensures
        ceil_div(w, width) <= w,
        ceil_div(w, width) >= 1,
{
    assert(w / width <= w) by (nonlinear_arith)
        requires
            width >= 1,
    ;
    if w % width != 0 {
        assert(w / width < w) by (nonlinear_arith)
            requires
                width >= 1,
                w % width != 0,
        ;
    } else {
        assert(w / width >= 1) by (nonlinear_arith)
            requires
                width >= 1,
                w >= 1,
                w % width == 0,
        ;
    }
}

/// Add one word of `w` characters to the running row count.
fn place_word(rows: usize, used: usize, w: usize, width: usize) -> (res: (usize, usize))
    requires
        width >= 1,
        w >= 1,
        used <= width,
        rows + w <= usize::MAX,
    ensures
        (res.0 as nat, res.1 as nat) == rows_step((rows as nat, used as nat), w as nat, width as nat),
        res.0 <= rows + w,
        res.1 <= width,
{
    proof {
        lemma_ceil_div_le(w as nat, width as nat);
    }
    if w > width {
        let q = w / width;
        let extra = if w % width == 0 { q } else { q + 1 };
        (rows + extra, 0)
    } else if used == 0 {
        (rows + 1, w)
    } else if used < width && w <= width - used - 1 {
        (rows, used + 1 + w)
    } else {
        (rows + 1, w)
    }
}

/// Rows produced by word-boundary wrapping of `text` at `width`
/// (words packed greedily, over-wide words broken; at least one row).
pub fn word_wrap_height(text: &str, width: usize) -> (rows: usize)
    requires
        width > 0 || words(text@).len() == 0,
    ensures
        rows == word_wrap_rows(text@, width as nat),
{
    let cs = chars_of(text);
    if cs.len() == 0 {
        return 1;
    }
    let ghost s = text@;
    let mut rows: usize = 0;
    let mut used: usize = 0;
    let mut run: usize = 0;
    let mut i: usize = 0;
    while i < cs.len()
        invariant
            cs@ == s,
            s.len() > 0,
            i <= s.len(),
            width > 0 || words(s).len() == 0,
            run as nat == scan_words(s, i as int).1.len(),
            (rows as nat, used as nat) == rows_fold(scan_words(s, i as int).0, width as nat),
            rows + run <= i,
            width > 0 ==> used <= width,
        decreases s.len() - i,
    {
        let ghost before = scan_words(s, i as int);
        let c = cs[i];
        if is_white_space_char(c) {
            if run > 0 {
                proof {
                    lemma_word_completed_before_end(s, i as int);
                }
                let (r, u) = place_word(rows, used, run, width);
                proof {
                    let ws = before.0.push(before.1);
                    assert(ws.drop_last() =~= before.0);
                }
                rows = r;
                used = u;
                run = 0;
            }
        } else {
            run = run + 1;
        }
        i = i + 1;
    }
    if run > 0 {
        let ghost fin = scan_words(s, s.len() as int);
        assert(words(s) == fin.0.push(fin.1));
        assert(words(s).len() > 0);
        let (r, u) = place_word(rows, used, run, width);
        proof {
            assert(words(s).drop_last() =~= fin.0);
        }
        rows = r;
        used = u;
    }
    if rows == 0 {
        1
    } else {
        rows
    }
}

/// A word that is complete at position `i` is still among the words of `s`.
proof fn lemma_word_completed_before_end(s: Seq<char>, i: int)
    requires
        0 <= i < s.len(),
        is_white_space(s[i]),
        scan_words(s, i).1.len() > 0,
    ensures
        words(s).len() > 0,
{
    lemma_scan_words_monotone(s, i + 1, s.len() as int);
}

/// Completed words only ever grow as the scan advances.
proof fn lemma_scan_words_monotone(s: Seq<char>, i: int, j: int)
    requires
        0 <= i <= j <= s.len(),
    ensures
        scan_words(s, i).0.len() <= scan_words(s, j).0.len(),
    decreases j - i,
{
    if i < j {
        lemma_scan_words_monotone(s, i, j - 1);
    }
}

/// Rows produced by word-boundary wrapping of `text` at `width`; a zero
/// width or an empty text takes one row.
pub fn wrapped_line_count(text: &str, width: usize) -> (rows: usize)
    ensures
        rows == line_count(text@, width as nat),
        rows >= 1,
{
    if width == 0 {
        return 1;
    }
    if text.is_empty() {
        return 1;
    }
    word_wrap_height(text, width)
}


/// The character views of a list of strings.
pub open spec fn string_views(v: Seq<String>) -> Seq<Seq<char>> {
    v.map_values(|l: String| l@)
}

/// `w` cut into pieces of `n` characters (the last one may be shorter).
pub open spec fn chunks(w: Seq<char>, n: nat) -> Seq<Seq<char>>
    decreases w.len(),
{
    if n == 0 || w.len() <= n {
        seq![w]
    } else {
        seq![w.take(n as int)] + chunks(w.skip(n as int), n)
    }
}

/// One word added to the rows being built: `(finished rows, open row)`.
/// The word joins a non-empty open row after a space if it fits; otherwise
/// the open row is finished and the word starts a new one, broken into
/// row-sized pieces when it is wider than the row.
pub open spec fn lines_step(st: (Seq<Seq<char>>, Seq<char>), w: Seq<char>, width: nat) -> (
    Seq<Seq<char>>,
    Seq<char>,
) {
    if st.1.len() == 0 {
        if w.len() > width {
            (st.0 + chunks(w, width), seq![])
        } else {
            (st.0, w)
        }
    } else if st.1.len() + 1 + w.len() <= width {
        (st.0, st.1 + seq![' '] + w)
    } else if w.len() > width {
        (st.0.push(st.1) + chunks(w, width), seq![])
    } else {
        (st.0.push(st.1), w)
    }
}

/// Rows after placing the words `ws` in order.
pub open spec fn lines_fold(ws: Seq<Seq<char>>, width: nat) -> (Seq<Seq<char>>, Seq<char>)
    decreases ws.len(),
{
    if ws.len() == 0 {
        (seq![], seq![])
    } else {
        lines_step(lines_fold(ws.drop_last(), width), ws.last(), width)
    }
}

/// The rows of a table cell holding `s` at `width`: one empty row for a
/// zero width, the text itself when it fits, the greedy word rows otherwise.
pub open spec fn wrap_lines(s: Seq<char>, width: nat) -> Seq<Seq<char>> {
    if width == 0 {
        seq![seq![]]
    } else if s.len() <= width {
        seq![s]
    } else {
        let st = lines_fold(words(s), width);
        let rows = if st.1.len() > 0 {
            st.0.push(st.1)
        } else {
            st.0
        };
        if rows.len() == 0 {
            seq![seq![]]
        } else {
            rows
        }
    }
}

/// Push the pieces of `word` (each `width` characters, the last shorter).
fn push_chunks(lines: &mut Vec<String>, word: &Vec<char>, width: usize)
    requires
        width >= 1,
        word@.len() > width,
    ensures
        string_views(final(lines)@) == string_views(old(lines)@) + chunks(word@, width as nat),
{
    let ghost w = word@;
    let ghost n = width as nat;
    let ghost base = string_views(lines@);
    let ghost mut prefix: Seq<Seq<char>> = seq![];
    let len = word.len();
    let mut i: usize = 0;
    assert(w.skip(0) =~= w);
    assert(prefix + chunks(w, n) =~= chunks(w, n));
    assert(string_views(lines@) =~= base + prefix);
    loop
        invariant_except_break
            i < len,
            len == w.len(),
            word@ == w,
            n == width as nat,
            width >= 1,
            string_views(lines@) == base + prefix,
            prefix + chunks(w.skip(i as int), n) == chunks(w, n),
        ensures
            string_views(lines@) == base + chunks(w, n),
        decreases len - i,
    {
        let ghost rest = w.skip(i as int);
        let ghost pre = string_views(lines@);
        if len - i <= width {
            let piece = string_from_range(word, i, len);
            lines.push(piece);
            proof {
                assert(rest =~= w.subrange(i as int, len as int));
                assert(chunks(rest, n) == seq![rest]);
                assert(string_views(lines@) =~= pre.push(rest));
                assert(string_views(lines@) =~= base + prefix.push(rest));
                assert(prefix.push(rest) =~= prefix + chunks(rest, n));
            }
            break;
        }
        let piece = string_from_range(word, i, i + width);
        lines.push(piece);
        proof {
            let head = rest.take(n as int);
            assert(head =~= w.subrange(i as int, (i + width) as int));
            assert(chunks(rest, n) == seq![head] + chunks(rest.skip(n as int), n));
            assert(rest.skip(n as int) =~= w.skip((i + width) as int));
            assert(string_views(lines@) =~= pre.push(head));
            assert(string_views(lines@) =~= base + prefix.push(head));
            assert(prefix.push(head) + chunks(w.skip((i + width) as int), n) =~= prefix + chunks(rest, n));
            prefix = prefix.push(head);
        }
        i = i + width;
    }
}

/// Add one word to the rows being built (see `lines_step`).
fn place_word_text(lines: &mut Vec<String>, current: &mut Vec<char>, word: &Vec<char>, width: usize)
    requires
        width >= 1,
        word@.len() >= 1,
    ensures
        (string_views(final(lines)@), final(current)@) == lines_step(
            (string_views(old(lines)@), old(current)@),
            word@,
            width as nat,
        ),
{
    if current.len() == 0 {
        if word.len() > width {
            push_chunks(lines, word, width);
            *current = Vec::new();
            assert(current@ =~= seq![]);
        } else {
            *current = word.clone();
        }
    } else if current.len() < width && word.len() <= width - current.len() - 1 {
        let ghost before = current@;
        current.push(' ');
        let mut k: usize = 0;
        while k < word.len()
            invariant
                k <= word@.len(),
                current@ == before + seq![' '] + word@.take(k as int),
            decreases word@.len() - k,
        {
            current.push(word[k]);
            k = k + 1;
            assert(current@ =~= before + seq![' '] + word@.take(k as int));
        }
        assert(word@.take(word@.len() as int) =~= word@);
    } else {
        let ghost pre = string_views(lines@);
        let row = string_from_chars(current);
        lines.push(row);
        assert(string_views(lines@) =~= pre.push(old(current)@));
        if word.len() > width {
            push_chunks(lines, word, width);
            *current = Vec::new();
            assert(current@ =~= seq![]);
        } else {
            *current = word.clone();
        }
    }
}

/// Wrap `text` into rows of at most `max_width` characters for a table cell:
/// one empty row for a zero width, the whole text when it fits, otherwise
/// greedy word rows (a word wider than the row is cut into pieces).
pub fn wrap_text(text: &str, max_width: usize) -> (lines: Vec<String>)
    ensures
        string_views(lines@) == wrap_lines(text@, max_width as nat),
{
    if max_width == 0 {
        let v = vec![String::new()];
        assert(string_views(v@) =~= seq![seq![]]);
        return v;
    }
    let cs = chars_of(text);
    if cs.len() <= max_width {
        let v = vec![string_from_chars(&cs)];
        assert(string_views(v@) =~= seq![text@]);
        return v;
    }
    let ghost s = text@;
    let mut lines: Vec<String> = Vec::new();
    let mut current: Vec<char> = Vec::new();
    let mut run: Vec<char> = Vec::new();
    let mut i: usize = 0;
    while i < cs.len()
        invariant
            cs@ == s,
            i <= s.len(),
            max_width >= 1,
            run@ == scan_words(s, i as int).1,
            (string_views(lines@), current@) == lines_fold(scan_words(s, i as int).0, max_width as nat),
        decreases s.len() - i,
    {
        let ghost before = scan_words(s, i as int);
        let c = cs[i];
        if is_white_space_char(c) {
            if run.len() > 0 {
                place_word_text(&mut lines, &mut current, &run, max_width);
                proof {
                    let ws = before.0.push(before.1);
                    assert(ws.drop_last() =~= before.0);
                }
                run = Vec::new();
                assert(run@ =~= seq![]);
            }
        } else {
            run.push(c);
        }
        i = i + 1;
    }
    if run.len() > 0 {
        let ghost fin = scan_words(s, s.len() as int);
        place_word_text(&mut lines, &mut current, &run, max_width);
        proof {
            assert(words(s).drop_last() =~= fin.0);
        }
    }
    if current.len() > 0 {
        let ghost done = string_views(lines@);
        let row = string_from_chars(&current);
        lines.push(row);
        assert(string_views(lines@) =~= done.push(current@));
    }
    if lines.len() == 0 {
        lines.push(String::new());
        assert(string_views(lines@) =~= seq![seq![]]);
    }
    lines
}


/// Every word the scan produces holds at least one character.
proof fn lemma_scan_words_nonempty(s: Seq<char>, i: int)
    requires
        0 <= i <= s.len(),
    ensures
        forall|k: int|
            0 <= k < scan_words(s, i).0.len() ==> #[trigger] scan_words(s, i).0[k].len() > 0,
    decreases i,
{
    if i > 0 {
        lemma_scan_words_nonempty(s, i - 1);
        let prev = scan_words(s, i - 1);
        let cur = scan_words(s, i);
        assert forall|k: int| 0 <= k < cur.0.len() implies #[trigger] cur.0[k].len() > 0 by {
            if k < prev.0.len() {
                assert(cur.0[k] == prev.0[k]);
            }
        }
    }
}

/// Every word of `s` holds at least one character.
pub proof fn lemma_words_nonempty(s: Seq<char>)
    ensures
        forall|k: int| 0 <= k < words(s).len() ==> #[trigger] words(s)[k].len() > 0,
{
    lemma_scan_words_nonempty(s, s.len() as int);
}

/// A word cut into row-sized pieces: as many pieces as the row counter
/// adds for it, none empty and none wider than the row.
proof fn lemma_chunks(w: Seq<char>, n: nat)
    requires
        n >= 1,
        w.len() >= 1,
    ensures
        chunks(w, n).len() == ceil_div(w.len(), n),
        forall|i: int| 0 <= i < chunks(w, n).len() ==> (#[trigger] chunks(w, n)[i]).len() <= n,
    decreases w.len(),
{
    let len = w.len();
    if len <= n {
        if len == n {
            assert(len % n == 0 && len / n == 1) by (nonlinear_arith)
                requires
                    len == n,
                    n >= 1,
            ;
        } else {
            assert(len % n == len && len / n == 0) by (nonlinear_arith)
                requires
                    len < n,
                    n >= 1,
            ;
        }
    } else {
        let rest = w.skip(n as int);
        lemma_chunks(rest, n);
        let r = (len - n) as nat;
        assert(r / n == len / n - 1 && r % n == len % n) by (nonlinear_arith)
            requires
                r == len - n,
                len > n,
                n >= 1,
        ;
        let c = chunks(w, n);
        assert(c == seq![w.take(n as int)] + chunks(rest, n));
        assert forall|i: int| 0 <= i < c.len() implies (#[trigger] c[i]).len() <= n by {
            if i > 0 {
                assert(c[i] == chunks(rest, n)[i - 1]);
            }
        }
    }
}

/// Placing words: the row counter and the built rows agree (the counter
/// also counts the open row), and no row is wider than the row width.
proof fn lemma_folds_agree(ws: Seq<Seq<char>>, width: nat)
    requires
        width >= 1,
        forall|k: int| 0 <= k < ws.len() ==> #[trigger] ws[k].len() > 0,
    ensures
        rows_fold(ws, width).1 == lines_fold(ws, width).1.len(),
        rows_fold(ws, width).0 == lines_fold(ws, width).0.len() + (if lines_fold(ws, width).1.len()
            > 0 {
            1nat
        } else {
            0nat
        }),
        lines_fold(ws, width).1.len() <= width,
        forall|i: int| 0 <= i < lines_fold(ws, width).0.len() ==> (#[trigger] lines_fold(ws, width).0[i]).len() <= width,
    decreases ws.len(),
{
    if ws.len() > 0 {
        let init = ws.drop_last();
        assert forall|k: int| 0 <= k < init.len() implies #[trigger] init[k].len() > 0 by {
            assert(init[k] == ws[k]);
        }
        lemma_folds_agree(init, width);
        let w = ws.last();
        assert(ws[ws.len() - 1] == w);
        let st = lines_fold(init, width);
        let done = lines_fold(ws, width).0;
        if w.len() > width {
            lemma_chunks(w, width);
            let c = chunks(w, width);
            if st.1.len() == 0 {
                assert(done == st.0 + c);
                assert forall|i: int| 0 <= i < done.len() implies (#[trigger] done[i]).len() <= width by {
                    if i >= st.0.len() {
                        assert(done[i] == c[i - st.0.len()]);
                    } else {
                        assert(done[i] == st.0[i]);
                    }
                }
            } else {
                let p = st.0.push(st.1);
                assert(done == p + c);
                assert forall|i: int| 0 <= i < done.len() implies (#[trigger] done[i]).len() <= width by {
                    if i >= p.len() {
                        assert(done[i] == c[i - p.len()]);
                    } else {
                        assert(done[i] == p[i]);
                        if i < st.0.len() {
                            assert(p[i] == st.0[i]);
                        }
                    }
                }
            }
        } else if st.1.len() > 0 && st.1.len() + 1 + w.len() > width {
            let p = st.0.push(st.1);
            assert(done == p);
            assert forall|i: int| 0 <= i < done.len() implies (#[trigger] done[i]).len() <= width by {
                if i < st.0.len() {
                    assert(p[i] == st.0[i]);
                }
            }
        }
    }
}

/// Reading a text no longer than the row never opens a second row.
proof fn lemma_fits_scan(s: Seq<char>, i: int, width: nat)
    requires
        0 <= i <= s.len(),
        s.len() <= width,
    ensures
        ({
            let st = scan_words(s, i);
            let r = rows_fold(st.0, width);
            &&& r.0 <= 1
            &&& (r.0 == 0 <==> r.1 == 0)
            &&& r.1 > 0 ==> r.1 + 1 + st.1.len() <= i
            &&& r.1 == 0 ==> st.1.len() <= i
        }),
    decreases i,
{
    if i > 0 {
        lemma_fits_scan(s, i - 1, width);
        let prev = scan_words(s, i - 1);
        lemma_scan_words_nonempty(s, i - 1);
        if is_white_space(s[i - 1]) && prev.1.len() > 0 {
            let ws = prev.0.push(prev.1);
            assert(ws.drop_last() =~= prev.0);
        }
    }
}

/// A text no longer than the row takes exactly one row.
proof fn lemma_fits_one_row(s: Seq<char>, width: nat)
    requires
        s.len() <= width,
        width >= 1,
    ensures
        word_wrap_rows(s, width) == 1,
{
    lemma_fits_scan(s, s.len() as int, width);
    let fin = scan_words(s, s.len() as int);
    if fin.1.len() > 0 {
        assert(words(s).drop_last() =~= fin.0);
    }
}

/// Law: the rows that `wrap_text` builds for a table cell are exactly as
/// many as `wrapped_line_count` reports, so cell contents and computed
/// table heights agree, and (for a positive width) no row is wider than the
/// width.
pub proof fn law_cell_rows_match_row_count(s: Seq<char>, width: nat)
    ensures
        wrap_lines(s, width).len() == line_count(s, width),
        width > 0 ==> forall|i: int| 0 <= i < wrap_lines(s, width).len() ==> (#[trigger] wrap_lines(s, width)[i]).len() <= width,
{
    if width > 0 && s.len() > 0 {
        if s.len() <= width {
            lemma_fits_one_row(s, width);
        } else {
            lemma_words_nonempty(s);
            lemma_folds_agree(words(s), width);
            let st = lines_fold(words(s), width);
            if st.1.len() > 0 {
                let rows = st.0.push(st.1);
                assert forall|i: int| 0 <= i < rows.len() implies (#[trigger] rows[i]).len() <= width by {
                    if i < st.0.len() {
                        assert(rows[i] == st.0[i]);
                    }
                }
            }
        }
    }
}

/// A word cut at a wider row takes no more pieces, and a word wider than
/// the row takes at least two.
proof fn lemma_ceil_div_wider(w: nat, b1: nat, b2: nat)
    requires
        1 <= b1 <= b2,
        w >= 1,
    ensures
        ceil_div(w, b2) <= ceil_div(w, b1),
        w > b1 ==> ceil_div(w, b1) >= 2,
{
    let c1 = ceil_div(w, b1);
    let c2 = ceil_div(w, b2);
    assert(c1 * b1 >= w) by (nonlinear_arith)
        requires
            c1 == (if w % b1 == 0 { w / b1 } else { w / b1 + 1 }),
            b1 >= 1,
    {
        assert(w == b1 * (w / b1) + w % b1);
        assert(w % b1 < b1);
    }
    assert(c1 * b2 >= c1 * b1) by (nonlinear_arith)
        requires
            b2 >= b1,
            c1 >= 0,
    ;
    assert((c2 - 1) * b2 < w) by (nonlinear_arith)
        requires
            c2 == (if w % b2 == 0 { w / b2 } else { w / b2 + 1 }),
            b2 >= 1,
    {
        assert(w == b2 * (w / b2) + w % b2);
        assert(w % b2 >= 0);
    }
    assert(c2 <= c1) by (nonlinear_arith)
        requires
            (c2 - 1) * b2 < w,
            c1 * b2 >= w,
            b2 >= 1,
    ;
    if w > b1 {
        assert(c1 >= 2) by (nonlinear_arith)
            requires
                c1 * b1 >= w,
                w > b1,
                b1 >= 1,
                c1 >= 0,
        ;
    }
}

/// The row count at width `b2` never runs ahead of the count at the
/// narrower width `b1`: fewer rows, or as many with no more room used on
/// an open row (and an open row whenever the narrower count has one).
pub open spec fn rows_behind(s2: (nat, nat), s1: (nat, nat)) -> bool {
    s2.0 < s1.0 || (s2.0 == s1.0 && s2.1 <= s1.1 && (s2.1 == 0 ==> s1.1 == 0))
}

proof fn lemma_rows_fold_wider(ws: Seq<Seq<char>>, b1: nat, b2: nat)
    requires
        1 <= b1 <= b2,
        forall|k: int| 0 <= k < ws.len() ==> #[trigger] ws[k].len() > 0,
    ensures
        rows_behind(rows_fold(ws, b2), rows_fold(ws, b1)),
        rows_fold(ws, b1).1 <= b1,
        rows_fold(ws, b2).1 <= b2,
    decreases ws.len(),
{
    if ws.len() > 0 {
        let init = ws.drop_last();
        assert forall|k: int| 0 <= k < init.len() implies #[trigger] init[k].len() > 0 by {
            assert(init[k] == ws[k]);
        }
        lemma_rows_fold_wider(init, b1, b2);
        let w = ws.last().len();
        assert(ws[ws.len() - 1].len() > 0);
        lemma_ceil_div_wider(w, b1, b2);
    }
}

/// Law: widening the row never adds wrapped rows.
pub proof fn law_wider_rows_never_add_lines(s: Seq<char>, w1: nat, w2: nat)
    requires
        1 <= w1 <= w2,
    ensures
        line_count(s, w2) <= line_count(s, w1),
{
    if s.len() > 0 {
        lemma_words_nonempty(s);
        lemma_rows_fold_wider(words(s), w1, w2);
    }
}

/// The characters of `s` other than white space, in order.
pub open spec fn non_space(s: Seq<char>) -> Seq<char>
    decreases s.len(),
{
    if s.len() == 0 {
        Seq::empty()
    } else {
        non_space(s.drop_last()) + if is_white_space(s.last()) {
            Seq::<char>::empty()
        } else {
            seq![s.last()]
        }
    }
}

/// Rows joined end to end.
pub open spec fn joined_rows(rows: Seq<Seq<char>>) -> Seq<char>
    decreases rows.len(),
{
    if rows.len() == 0 {
        Seq::empty()
    } else {
        joined_rows(rows.drop_last()) + rows.last()
    }
}

proof fn lemma_non_space_add(a: Seq<char>, b: Seq<char>)
    ensures
        non_space(a + b) == non_space(a) + non_space(b),
    decreases b.len(),
{
    if b.len() == 0 {
        assert(a + b =~= a);
        assert(non_space(a) + non_space(b) =~= non_space(a));
    } else {
        lemma_non_space_add(a, b.drop_last());
        assert((a + b).drop_last() =~= a + b.drop_last());
        assert((a + b).last() == b.last());
        let tail = if is_white_space(b.last()) { Seq::<char>::empty() } else { seq![b.last()] };
        assert(non_space(a) + non_space(b.drop_last()) + tail =~= non_space(a) + (non_space(b.drop_last()) + tail));
    }
}

proof fn lemma_joined_add(a: Seq<Seq<char>>, b: Seq<Seq<char>>)
    ensures
        joined_rows(a + b) == joined_rows(a) + joined_rows(b),
    decreases b.len(),
{
    if b.len() == 0 {
        assert(a + b =~= a);
        assert(joined_rows(a) + joined_rows(b) =~= joined_rows(a));
    } else {
        lemma_joined_add(a, b.drop_last());
        assert((a + b).drop_last() =~= a + b.drop_last());
        assert((a + b).last() == b.last());
        assert(joined_rows(a) + joined_rows(b.drop_last()) + b.last() =~= joined_rows(a) + (joined_rows(b.drop_last()) + b.last()));
    }
}

proof fn lemma_joined_one(x: Seq<char>)
    ensures
        joined_rows(seq![x]) == x,
{
    let one = seq![x];
    assert(one.drop_last() =~= Seq::<Seq<char>>::empty());
    assert(one.last() == x);
    assert(joined_rows(one.drop_last()) == Seq::<char>::empty());
    assert(Seq::<char>::empty() + x =~= x);
}

proof fn lemma_joined_chunks(w: Seq<char>, n: nat)
    ensures
        joined_rows(chunks(w, n)) == w,
    decreases w.len(),
{
    if n == 0 || w.len() <= n {
        lemma_joined_one(w);
    } else {
        let rest = w.skip(n as int);
        lemma_joined_chunks(rest, n);
        lemma_joined_add(seq![w.take(n as int)], chunks(rest, n));
        lemma_joined_one(w.take(n as int));
        assert(w.take(n as int) + rest =~= w);
    }
}

/// What the scan has read, less white space, is the words so far and the
/// word in progress.
proof fn lemma_scan_keeps_text(s: Seq<char>, i: int)
    requires
        0 <= i <= s.len(),
    ensures
        non_space(joined_rows(scan_words(s, i).0)) + non_space(scan_words(s, i).1) == non_space(s.take(i)),
    decreases i,
{
    if i == 0 {
        assert(s.take(0) =~= Seq::<char>::empty());
        assert(Seq::<char>::empty() + Seq::<char>::empty() =~= Seq::<char>::empty());
    } else {
        lemma_scan_keeps_text(s, i - 1);
        let prev = scan_words(s, i - 1);
        assert(s.take(i).drop_last() =~= s.take(i - 1));
        assert(s.take(i).last() == s[i - 1]);
        let a = non_space(joined_rows(prev.0));
        let b = non_space(prev.1);
        if is_white_space(s[i - 1]) {
            if prev.1.len() > 0 {
                assert(prev.0.push(prev.1).drop_last() =~= prev.0);
                lemma_non_space_add(joined_rows(prev.0), prev.1);
                assert(non_space(Seq::<char>::empty()) =~= Seq::<char>::empty());
                assert(a + b + Seq::<char>::empty() =~= a + b);
            } else {
                assert(non_space(Seq::<char>::empty()) =~= Seq::<char>::empty());
                assert(a + b + Seq::<char>::empty() =~= a + b);
            }
        } else {
            assert(prev.1.push(s[i - 1]).drop_last() =~= prev.1);
            assert(a + (b + seq![s[i - 1]]) =~= a + b + seq![s[i - 1]]);
        }
    }
}

/// Placing words keeps their characters other than white space, in order.
proof fn lemma_lines_fold_keeps_text(ws: Seq<Seq<char>>, width: nat)
    requires
        width >= 1,
    ensures
        non_space(joined_rows(lines_fold(ws, width).0)) + non_space(lines_fold(ws, width).1)
            == non_space(joined_rows(ws)),
    decreases ws.len(),
{
    if ws.len() == 0 {
        assert(Seq::<char>::empty() + Seq::<char>::empty() =~= Seq::<char>::empty());
    } else {
        let pre = ws.drop_last();
        let w = ws.last();
        lemma_lines_fold_keeps_text(pre, width);
        let st = lines_fold(pre, width);
        let a = non_space(joined_rows(st.0));
        let b = non_space(st.1);
        let nw = non_space(w);
        lemma_non_space_add(joined_rows(pre), w);
        // non_space(joined_rows(ws)) == a + b + nw
        assert(non_space(Seq::<char>::empty()) =~= Seq::<char>::empty());
        if st.1.len() == 0 {
            if w.len() > width {
                lemma_joined_add(st.0, chunks(w, width));
                lemma_joined_chunks(w, width);
                lemma_non_space_add(joined_rows(st.0), w);
                assert(a + nw + Seq::<char>::empty() =~= a + b + nw);
            } else {
                assert(a + nw =~= a + b + nw);
            }
        } else if st.1.len() + 1 + w.len() <= width {
            lemma_non_space_add(st.1 + seq![' '], w);
            lemma_non_space_add(st.1, seq![' ']);
            assert(seq![' '].drop_last() =~= Seq::<char>::empty());
            assert(is_white_space(' '));
            assert(non_space(seq![' ']) =~= Seq::<char>::empty());
            assert(b + Seq::<char>::empty() =~= b);
            assert(a + (b + nw) =~= a + b + nw);
        } else {
            assert(st.0.push(st.1).drop_last() =~= st.0);
            lemma_non_space_add(joined_rows(st.0), st.1);
            if w.len() > width {
                lemma_joined_add(st.0.push(st.1), chunks(w, width));
                lemma_joined_chunks(w, width);
                lemma_non_space_add(joined_rows(st.0.push(st.1)), w);
                assert(a + b + nw + Seq::<char>::empty() =~= a + b + nw);
            } else {
                assert(a + b + nw =~= a + b + nw);
            }
        }
    }
}

/// Law: at any width above zero, the wrapped rows hold the text's
/// characters other than white space, all of them and in order.
pub proof fn law_wrap_keeps_text(s: Seq<char>, width: nat)
    requires
        width >= 1,
    ensures
        non_space(joined_rows(wrap_lines(s, width))) == non_space(s),
{
    if s.len() <= width {
        lemma_joined_one(s);
    } else {
        let st0 = scan_words(s, s.len() as int);
        lemma_scan_keeps_text(s, s.len() as int);
        assert(s.take(s.len() as int) =~= s);
        let ws = words(s);
        if st0.1.len() > 0 {
            assert(st0.0.push(st0.1).drop_last() =~= st0.0);
            lemma_non_space_add(joined_rows(st0.0), st0.1);
        } else {
            assert(non_space(st0.1) =~= Seq::<char>::empty());
            assert(non_space(joined_rows(st0.0)) + Seq::<char>::empty() =~= non_space(joined_rows(st0.0)));
        }
        // non_space(joined_rows(ws)) == non_space(s)
        lemma_lines_fold_keeps_text(ws, width);
        let st = lines_fold(ws, width);
        if st.1.len() > 0 {
            assert(st.0.push(st.1).drop_last() =~= st.0);
            lemma_non_space_add(joined_rows(st.0), st.1);
        } else {
            assert(non_space(st.1) =~= Seq::<char>::empty());
            assert(non_space(joined_rows(st.0)) + Seq::<char>::empty() =~= non_space(joined_rows(st.0)));
            if st.0.len() == 0 {
                lemma_joined_one(Seq::<char>::empty());
                assert(non_space(Seq::<char>::empty()) =~= Seq::<char>::empty());
            }
        }
    }
}

} // verus!
