//! The lines of a Markdown table as drawn: box-drawing borders, the header
//! and data rows with their cells wrapped and padded to the column widths,
//! separators between rows, cut to the height of the area.

use vstd::prelude::*;
use crate::blocks::{table_avail, table_cols, table_sizes_fit};
use crate::columns::{cell_views, col_widths, compute_col_widths, row_views};
use crate::text::{chars_of, string_from_chars};
use crate::widgets::{repeat_char, Rect};
use crate::wrap::{string_views, wrap_lines, wrap_text};
use vstd::string::StringExecFns;

verus! {

broadcast use vstd::string::group_string_axioms;

/// A line of a drawn table, as plain data.
pub enum TableLineV {
    Rule(Seq<char>),
    Cells(Seq<Seq<char>>, bool),
    Fallback(Seq<char>),
}

/// A line of a drawn table.
pub enum TableLine {
    /// A border or separator line.
    Rule(String),
    /// One line of a row: each cell's text padded to its column width
    /// (drawn between `│ `, ` │ ` and ` │`); header rows are styled apart.
    Cells { cells: Vec<String>, header: bool },
    /// Too narrow for the borders: the headers joined with ` | `, wrapped.
    Fallback(String),
}

pub open spec fn table_line_view(l: TableLine) -> TableLineV {
    match l {
        TableLine::Rule(s) => TableLineV::Rule(s@),
        TableLine::Cells { cells, header } => TableLineV::Cells(cells@.map_values(|c: String| c@), header),
        TableLine::Fallback(s) => TableLineV::Fallback(s@),
    }
}

/// The parts joined with `sep` between each two.
pub open spec fn joined(parts: Seq<Seq<char>>, sep: Seq<char>) -> Seq<char>
    decreases parts.len(),
{
    if parts.len() == 0 {
        Seq::empty()
    } else if parts.len() == 1 {
        parts[0]
    } else {
        joined(parts.drop_last(), sep) + sep + parts.last()
    }
}

/// A border line: `left─`, each column's width of `─` joined by `─mid─`,
/// then `─right`.
pub open spec fn rule_line(cw: Seq<nat>, n: nat, left: char, mid: char, right: char) -> Seq<char> {
    seq![left, '─'] + joined(Seq::new(n, |i: int| repeat_char('─', cw[i])), seq!['─', mid, '─']) + seq!['─', right]
}

/// Cell `i` of a row, empty when the row is shorter.
pub open spec fn cell_at(cells: Seq<Seq<char>>, i: int) -> Seq<char> {
    if 0 <= i < cells.len() { cells[i] } else { Seq::empty() }
}

/// Line `li` of a wrapped cell, empty below its last line.
pub open spec fn wrapped_line_at(lines: Seq<Seq<char>>, li: int) -> Seq<char> {
    if 0 <= li < lines.len() { lines[li] } else { Seq::empty() }
}

/// `t` padded with spaces to `w` characters.
pub open spec fn padded(t: Seq<char>, w: nat) -> Seq<char> {
    if t.len() >= w { t } else { t + repeat_char(' ', (w - t.len()) as nat) }
}

/// The lines of the tallest of the first `k` wrapped cells of a row.
pub open spec fn tallest(cells: Seq<Seq<char>>, cw: Seq<nat>, k: int) -> nat
    decreases k,
{
    if k <= 0 {
        0
    } else {
        let m = tallest(cells, cw, k - 1);
        let h = wrap_lines(cell_at(cells, k - 1), cw[k - 1]).len();
        if h > m { h } else { m }
    }
}

/// The lines a row takes: its tallest wrapped cell, at least one.
pub open spec fn row_block_height(cells: Seq<Seq<char>>, cw: Seq<nat>, n: nat) -> nat {
    let t = tallest(cells, cw, n as int);
    if t >= 1 { t } else { 1 }
}

/// The lines of one row: line `li` holds line `li` of each wrapped cell,
/// padded to its column.
pub open spec fn row_block(cells: Seq<Seq<char>>, cw: Seq<nat>, n: nat, header: bool) -> Seq<TableLineV> {
    Seq::new(row_block_height(cells, cw, n), |li: int| TableLineV::Cells(
        Seq::new(n, |ci: int| padded(wrapped_line_at(wrap_lines(cell_at(cells, ci), cw[ci]), li), cw[ci])),
        header,
    ))
}

/// The lines of the first `k` data rows, a separator after each but the
/// last row.
pub open spec fn data_lines(rows: Seq<Seq<Seq<char>>>, cw: Seq<nat>, n: nat, k: int) -> Seq<TableLineV>
    decreases k,
{
    if k <= 0 {
        Seq::empty()
    } else {
        let prev = data_lines(rows, cw, n, k - 1);
        let block = row_block(rows[k - 1], cw, n, false);
        if k - 1 < rows.len() - 1 {
            prev + block + seq![TableLineV::Rule(rule_line(cw, n, '├', '┼', '┤'))]
        } else {
            prev + block
        }
    }
}

/// The lines a table draws in an area `width` by `height` (none when the
/// area is under 4 by 2 or the table has no column): the headers joined
/// when the borders leave too little room, else the top border, the header
/// row, a separator, the data rows, the bottom border, cut to the height.
pub open spec fn table_lines_spec(
    headers: Seq<Seq<char>>,
    rows: Seq<Seq<Seq<char>>>,
    width: nat,
    height: nat,
) -> Option<Seq<TableLineV>> {
    let n = table_cols(headers, rows);
    if width < 4 || height < 2 || n == 0 {
        None
    } else if table_avail(n, width) < n {
        Some(seq![TableLineV::Fallback(joined(headers, " | "@))])
    } else {
        let cw = col_widths(headers, rows, table_avail(n, width), n);
        let all = seq![TableLineV::Rule(rule_line(cw, n, '┌', '┬', '┐'))] + row_block(headers, cw, n, true)
            + seq![TableLineV::Rule(rule_line(cw, n, '├', '┼', '┤'))] + data_lines(rows, cw, n, rows.len() as int)
            + seq![TableLineV::Rule(rule_line(cw, n, '└', '┴', '┘'))];
        Some(if all.len() <= height { all } else { all.take(height as int) })
    }
}

/// Total length of the first `k` parts.
pub open spec fn parts_len(parts: Seq<Seq<char>>, k: int) -> nat
    decreases k,
{
    if k <= 0 { 0 } else { parts_len(parts, k - 1) + parts[k - 1].len() }
}

proof fn lemma_joined_len(parts: Seq<Seq<char>>, sep: Seq<char>)
    requires
        parts.len() > 0,
    ensures
        joined(parts, sep).len() == parts_len(parts, parts.len() as int) + (parts.len() - 1) * sep.len(),
    decreases parts.len(),
{
    if parts.len() > 1 {
        let init = parts.drop_last();
        lemma_joined_len(init, sep);
        lemma_parts_len_prefix(parts, init, parts.len() - 1);
        assert((parts.len() - 1) * sep.len() == (init.len() - 1) * sep.len() + sep.len()) by (nonlinear_arith)
            requires
                init.len() == parts.len() - 1,
                init.len() >= 1,
        ;
        assert(parts_len(parts, parts.len() as int) == parts_len(parts, parts.len() - 1) + parts.last().len());
        assert(joined(parts, sep) == joined(init, sep) + sep + parts.last());
    } else {
        assert((parts.len() - 1) * sep.len() == 0) by (nonlinear_arith)
            requires
                parts.len() == 1,
        ;
        assert(parts_len(parts, 1) == parts_len(parts, 0) + parts[0].len());
    }
}

proof fn lemma_parts_len_prefix(parts: Seq<Seq<char>>, init: Seq<Seq<char>>, k: int)
    requires
        0 <= k <= init.len(),
        init.len() <= parts.len(),
        forall|i: int| 0 <= i < init.len() ==> init[i] == parts[i],
    ensures
        parts_len(init, k) == parts_len(parts, k),
    decreases k,
{
    if k > 0 {
        lemma_parts_len_prefix(parts, init, k - 1);
    }
}

proof fn lemma_dash_parts_len(cw: Seq<nat>, n: nat, k: int)
    requires
        0 <= k <= n,
        cw.len() == n,
    ensures
        parts_len(Seq::new(n, |i: int| repeat_char('─', cw[i])), k) == crate::columns::sum(cw.take(k)),
    decreases k,
{
    if k > 0 {
        lemma_dash_parts_len(cw, n, k - 1);
        assert(cw.take(k).drop_last() =~= cw.take(k - 1));
    }
}

/// When the minimum widths of a table's columns and the gaps between them
/// fit, every border line of the drawn table stays inside the area: it is
/// exactly one column narrower than the area for each gap between columns.
pub proof fn law_table_rules_fit(
    headers: Seq<Seq<char>>,
    rows: Seq<Seq<Seq<char>>>,
    width: nat,
    left: char,
    mid: char,
    right: char,
)
    requires
        table_cols(headers, rows) > 0,
        crate::columns::sum(crate::columns::min_widths(headers, rows, table_cols(headers, rows)))
            + (table_cols(headers, rows) - 1) <= table_avail(table_cols(headers, rows), width),
    ensures
        ({
            let n = table_cols(headers, rows);
            let cw = col_widths(headers, rows, table_avail(n, width), n);
            rule_line(cw, n, left, mid, right).len() + (n - 1) == width
        }),
{
    let n = table_cols(headers, rows);
    let avail = table_avail(n, width);
    let cw = col_widths(headers, rows, avail, n);
    crate::columns::law_col_widths_fill_row(headers, rows, avail, n);
    let parts = Seq::new(n, |i: int| repeat_char('─', cw[i]));
    lemma_joined_len(parts, seq!['─', mid, '─']);
    lemma_dash_parts_len(cw, n, n as int);
    assert(cw.take(n as int) =~= cw);
    assert(width >= 3 * n + 1);
}

/// `parts` joined with `sep`.
fn join_strings(parts: &Vec<String>, sep: &str) -> (s: String)
    ensures
        s@ == joined(parts@.map_values(|p: String| p@), sep@),
{
    let ghost pv = parts@.map_values(|p: String| p@);
    let mut s = String::new();
    let mut i: usize = 0;
    while i < parts.len()
        invariant
            i <= parts@.len(),
            pv == parts@.map_values(|p: String| p@),
            s@ == joined(pv.take(i as int), sep@),
        decreases parts@.len() - i,
    {
        proof {
            assert(pv.take(i as int + 1).drop_last() =~= pv.take(i as int));
            assert(pv.take(i as int + 1).last() == parts@[i as int]@);
            if i == 0 {
                assert(pv.take(0) =~= Seq::<Seq<char>>::empty());
                assert(pv.take(1).len() == 1);
            }
        }
        if i > 0 {
            s.append(sep);
        }
        s.append(parts[i].as_str());
        i = i + 1;
    }
    assert(pv.take(parts@.len() as int) =~= pv);
    s
}

/// A border line for the column widths `cw`.
fn rule_string(cw: &Vec<usize>, Ghost(cws): Ghost<Seq<nat>>, left: char, mid: char, right: char) -> (s: String)
    requires
        forall|i: int| 0 <= i < cw@.len() ==> cw@[i] as nat == cws[i],
    ensures
        s@ == rule_line(cws, cw@.len() as nat, left, mid, right),
{
    let n = cw.len();
    let ghost parts = Seq::new(n as nat, |i: int| repeat_char('─', cws[i]));
    let ghost sep = seq!['─', mid, '─'];
    let mut s = String::new();
    s.push(left);
    s.push('─');
    let ghost head = seq![left, '─'];
    assert(s@ =~= head);
    let mut i: usize = 0;
    while i < n
        invariant
            i <= n == cw@.len(),
            forall|q: int| 0 <= q < cw@.len() ==> cw@[q] as nat == cws[q],
            parts == Seq::new(n as nat, |i: int| repeat_char('─', cws[i])),
            sep == seq!['─', mid, '─'],
            head == seq![left, '─'],
            s@ == head + joined(parts.take(i as int), sep),
        decreases n - i,
    {
        let ghost before = s@;
        proof {
            assert(parts.take(i as int + 1).drop_last() =~= parts.take(i as int));
            assert(parts.take(i as int + 1).last() == parts[i as int]);
            if i == 0 {
                assert(parts.take(0) =~= Seq::<Seq<char>>::empty());
            }
        }
        if i > 0 {
            s.push('─');
            s.push(mid);
            s.push('─');
        }
        let ghost mid_s = s@;
        let w = cw[i];
        let mut k: usize = 0;
        while k < w
            invariant
                k <= w,
                s@ == mid_s + repeat_char('─', k as nat),
            decreases w - k,
        {
            s.push('─');
            k = k + 1;
            assert(s@ =~= mid_s + repeat_char('─', k as nat));
        }
        proof {
            if i == 0 {
                assert(s@ =~= head + joined(parts.take(1), sep));
            } else {
                assert(mid_s =~= before + sep);
                assert(s@ =~= head + (joined(parts.take(i as int), sep) + sep + parts[i as int]));
            }
        }
        i = i + 1;
    }
    assert(parts.take(n as int) =~= parts);
    let ghost body = s@;
    s.push('─');
    s.push(right);
    assert(s@ =~= body + seq!['─', right]);
    s
}

/// `t` padded with spaces to `w` characters.
fn pad_cell(t: &String, w: usize) -> (s: String)
    ensures
        s@ == padded(t@, w as nat),
{
    let mut cs = chars_of(t.as_str());
    let len = cs.len();
    if len < w {
        let mut k: usize = len;
        while k < w
            invariant
                len <= k <= w,
                len == t@.len(),
                cs@ == t@ + repeat_char(' ', (k - len) as nat),
            decreases w - k,
        {
            cs.push(' ');
            k = k + 1;
            assert(cs@ =~= t@ + repeat_char(' ', (k - len) as nat));
        }
    } else {
        assert(cs@ == t@);
    }
    string_from_chars(&cs)
}

/// The lines of one row of the table.
fn row_lines(
    cells: &Vec<String>,
    cw: &Vec<usize>,
    Ghost(cws): Ghost<Seq<nat>>,
    header: bool,
) -> (v: Vec<TableLine>)
    requires
        forall|i: int| 0 <= i < cw@.len() ==> cw@[i] as nat == cws[i],
    ensures
        v@.map_values(|l: TableLine| table_line_view(l)) == row_block(cell_views(cells@), cws, cw@.len() as nat, header),
{
    let n = cw.len();
    let ghost cv = cell_views(cells@);
    let empty = String::new();
    let mut wrapped: Vec<Vec<String>> = Vec::new();
    let mut height: usize = 0;
    let mut ci: usize = 0;
    while ci < n
        invariant
            ci <= n == cw@.len(),
            forall|q: int| 0 <= q < cw@.len() ==> cw@[q] as nat == cws[q],
            cv == cell_views(cells@),
            empty@ == Seq::<char>::empty(),
            wrapped@.len() == ci,
            forall|q: int| 0 <= q < ci ==> string_views((#[trigger] wrapped@[q])@) == wrap_lines(cell_at(cv, q), cws[q]),
            height as nat == tallest(cv, cws, ci as int),
        decreases n - ci,
    {
        let text: &String = if ci < cells.len() { &cells[ci] } else { &empty };
        assert(text@ == cell_at(cv, ci as int));
        let lines = wrap_text(text.as_str(), cw[ci]);
        if lines.len() > height {
            height = lines.len();
        }
        wrapped.push(lines);
        ci = ci + 1;
    }
    let rows = if height >= 1 { height } else { 1 };
    let ghost target = row_block(cv, cws, n as nat, header);
    let mut out: Vec<TableLine> = Vec::new();
    let mut li: usize = 0;
    while li < rows
        invariant
            li <= rows,
            rows as nat == row_block_height(cv, cws, n as nat),
            n == cw@.len(),
            forall|q: int| 0 <= q < cw@.len() ==> cw@[q] as nat == cws[q],
            wrapped@.len() == n,
            forall|q: int| 0 <= q < n ==> string_views((#[trigger] wrapped@[q])@) == wrap_lines(cell_at(cv, q), cws[q]),
            target == row_block(cv, cws, n as nat, header),
            empty@ == Seq::<char>::empty(),
            out@.map_values(|l: TableLine| table_line_view(l)) == target.take(li as int),
        decreases rows - li,
    {
        let mut line_cells: Vec<String> = Vec::new();
        let mut k: usize = 0;
        while k < n
            invariant
                k <= n == cw@.len(),
                li < rows,
                forall|q: int| 0 <= q < cw@.len() ==> cw@[q] as nat == cws[q],
                wrapped@.len() == n,
                forall|q: int| 0 <= q < n ==> string_views((#[trigger] wrapped@[q])@) == wrap_lines(cell_at(cv, q), cws[q]),
                empty@ == Seq::<char>::empty(),
                line_cells@.len() == k,
                forall|q: int| 0 <= q < k ==> (#[trigger] line_cells@[q])@ == padded(
                    wrapped_line_at(wrap_lines(cell_at(cv, q), cws[q]), li as int), cws[q]),
            decreases n - k,
        {
            let col = &wrapped[k];
            let t: &String = if li < col.len() { &col[li] } else { &empty };
            proof {
                assert(string_views(wrapped@[k as int]@) == wrap_lines(cell_at(cv, k as int), cws[k as int]));
                if li < col@.len() {
                    assert(string_views(col@)[li as int] == col@[li as int]@);
                }
            }
            assert(t@ == wrapped_line_at(wrap_lines(cell_at(cv, k as int), cws[k as int]), li as int));
            line_cells.push(pad_cell(t, cw[k]));
            k = k + 1;
        }
        let line = TableLine::Cells { cells: line_cells, header };
        let ghost before = out@;
        out.push(line);
        proof {
            assert(table_line_view(line) == target[li as int]) by {
                assert(line_cells@.map_values(|c: String| c@) =~= Seq::new(n as nat, |ci: int| padded(
                    wrapped_line_at(wrap_lines(cell_at(cv, ci), cws[ci]), li as int), cws[ci])));
            }
            assert(out@.map_values(|l: TableLine| table_line_view(l))
                =~= before.map_values(|l: TableLine| table_line_view(l)).push(table_line_view(line)));
            assert(target.take(li as int + 1) =~= target.take(li as int).push(target[li as int]));
        }
        li = li + 1;
    }
    assert(target.take(rows as int) =~= target);
    out
}

/// Largest row length among the first `k` rows.
fn widest_row(rows: &Vec<Vec<String>>) -> (r: usize)
    ensures
        r as nat == crate::blocks::max_row_len(row_views(rows@), rows@.len() as int),
{
    let ghost rv = row_views(rows@);
    let mut r: usize = 0;
    let mut k: usize = 0;
    while k < rows.len()
        invariant
            k <= rows@.len(),
            rv == row_views(rows@),
            r as nat == crate::blocks::max_row_len(rv, k as int),
        decreases rows@.len() - k,
    {
        proof {
            assert(rv[k as int].len() == rows@[k as int]@.len());
        }
        if rows[k].len() > r {
            r = rows[k].len();
        }
        k = k + 1;
    }
    r
}

/// The lines a table draws in `area`: the top border, the header row, a
/// separator, the data rows with separators between them and the bottom
/// border, cut to the area's height; the headers joined with ` | ` when the
/// area is too narrow for the borders; none when the area is under 4 by 2
/// or the table has no column.
pub fn table_lines(headers: &Vec<String>, rows: &Vec<Vec<String>>, area: Rect) -> (r: Option<Vec<TableLine>>)
    requires
        table_sizes_fit(cell_views(headers@), row_views(rows@)),
        ({
            let n = table_cols(cell_views(headers@), row_views(rows@));
            area.width >= 4 && area.height >= 2 && n > 0 && table_avail(n, area.width as nat) >= n
                ==> headers@.len() == n
        }),
    ensures
        table_lines_spec(cell_views(headers@), row_views(rows@), area.width as nat, area.height as nat) == (match r {
            Some(v) => Some(v@.map_values(|l: TableLine| table_line_view(l))),
            None => None,
        }),
{
    let ghost hv = cell_views(headers@);
    let ghost rv = row_views(rows@);
    let widest = widest_row(rows);
    let n = if headers.len() > widest { headers.len() } else { widest };
    assert(n as nat == table_cols(hv, rv));
    if area.width < 4 || area.height < 2 || n == 0 {
        return None;
    }
    let width = area.width as usize;
    let border = 3 * n + 1;
    let avail = if width >= border { width - border } else { 0 };
    if avail < n {
        let text = join_strings(headers, " | ");
        proof {
            assert(headers@.map_values(|p: String| p@) =~= hv);
        }
        return Some(vec![TableLine::Fallback(text)]);
    }
    let cw = compute_col_widths(headers.as_slice(), rows.as_slice(), avail, n);
    let ghost cws = col_widths(hv, rv, avail as nat, n as nat);
    let ghost top = TableLineV::Rule(rule_line(cws, n as nat, '┌', '┬', '┐'));
    let ghost sep = TableLineV::Rule(rule_line(cws, n as nat, '├', '┼', '┤'));
    let mut out: Vec<TableLine> = Vec::new();
    out.push(TableLine::Rule(rule_string(&cw, Ghost(cws), '┌', '┬', '┐')));
    let mut head = row_lines(headers, &cw, Ghost(cws), true);
    out.append(&mut head);
    out.push(TableLine::Rule(rule_string(&cw, Ghost(cws), '├', '┼', '┤')));
    let ghost prefix = seq![top] + row_block(hv, cws, n as nat, true) + seq![sep];
    assert(out@.map_values(|l: TableLine| table_line_view(l)) =~= prefix);
    let mut j: usize = 0;
    while j < rows.len()
        invariant
            j <= rows@.len(),
            rv == row_views(rows@),
            cw@.len() == n,
            forall|i: int| 0 <= i < n ==> cw@[i] as nat == cws[i],
            sep == TableLineV::Rule(rule_line(cws, n as nat, '├', '┼', '┤')),
            out@.map_values(|l: TableLine| table_line_view(l)) == prefix + data_lines(rv, cws, n as nat, j as int),
        decreases rows@.len() - j,
    {
        let ghost before = out@.map_values(|l: TableLine| table_line_view(l));
        let mut block = row_lines(&rows[j], &cw, Ghost(cws), false);
        let ghost bv = block@.map_values(|l: TableLine| table_line_view(l));
        let ghost old_out = out@;
        out.append(&mut block);
        proof {
            assert(rv[j as int] == cell_views(rows@[j as int]@));
            assert(out@.map_values(|l: TableLine| table_line_view(l)) =~= before + bv);
        }
        if j + 1 < rows.len() {
            let ghost mid = out@;
            out.push(TableLine::Rule(rule_string(&cw, Ghost(cws), '├', '┼', '┤')));
            proof {
                assert(out@.map_values(|l: TableLine| table_line_view(l))
                    =~= mid.map_values(|l: TableLine| table_line_view(l)).push(sep));
                assert(out@.map_values(|l: TableLine| table_line_view(l))
                    =~= prefix + data_lines(rv, cws, n as nat, j as int + 1));
            }
        } else {
            assert(out@.map_values(|l: TableLine| table_line_view(l))
                =~= prefix + data_lines(rv, cws, n as nat, j as int + 1));
        }
        j = j + 1;
    }
    let ghost body = out@;
    out.push(TableLine::Rule(rule_string(&cw, Ghost(cws), '└', '┴', '┘')));
    let ghost all = prefix + data_lines(rv, cws, n as nat, rows@.len() as int)
        + seq![TableLineV::Rule(rule_line(cws, n as nat, '└', '┴', '┘'))];
    assert(out@.map_values(|l: TableLine| table_line_view(l)) =~= all) by {
        assert(out@.map_values(|l: TableLine| table_line_view(l))
            =~= body.map_values(|l: TableLine| table_line_view(l)).push(
            TableLineV::Rule(rule_line(cws, n as nat, '└', '┴', '┘'))));
    }
    let h = area.height as usize;
    if out.len() > h {
        let ghost full = out@;
        out.truncate(h);
        assert(out@.map_values(|l: TableLine| table_line_view(l)) =~= all.take(h as int));
    }
    Some(out)
}

} // verus!
