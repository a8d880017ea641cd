//! Table column widths: every column gets at least its widest cell (and at
//! least three characters); spare room is shared in proportion to those
//! minimums, and a table that cannot fit splits the room evenly.

use vstd::prelude::*;
use crate::text::chars_of;
use crate::wrap::ceil_div;

verus! {

/// The character views of a row of cells.
pub open spec fn cell_views(r: Seq<String>) -> Seq<Seq<char>> {
    r.map_values(|c: String| c@)
}

/// The character views of all rows.
pub open spec fn row_views(rows: Seq<Vec<String>>) -> Seq<Seq<Seq<char>>> {
    rows.map_values(|r: Vec<String>| cell_views(r@))
}

/// Characters of header `i` (0 when there is no such header).
pub open spec fn header_len(headers: Seq<Seq<char>>, i: int) -> nat {
    if 0 <= i < headers.len() {
        headers[i].len()
    } else {
        0
    }
}

/// Characters of the widest cell `i` among the first `k` rows.
pub open spec fn rows_max_len(rows: Seq<Seq<Seq<char>>>, i: int, k: int) -> nat
    decreases k,
{
    if k <= 0 {
        0
    } else {
        let m = rows_max_len(rows, i, k - 1);
        let c = if 0 <= i < rows[k - 1].len() {
            rows[k - 1][i].len()
        } else {
            0
        };
        if c > m {
            c
        } else {
            m
        }
    }
}

/// The minimum width of column `i`: its widest cell, and at least 3.
pub open spec fn min_col_width(headers: Seq<Seq<char>>, rows: Seq<Seq<Seq<char>>>, i: int) -> nat {
    let h = header_len(headers, i);
    let r = rows_max_len(rows, i, rows.len() as int);
    let m = if h > r {
        h
    } else {
        r
    };
    if m < 3 {
        3
    } else {
        m
    }
}

/// Minimum widths of the first `n` columns.
pub open spec fn min_widths(headers: Seq<Seq<char>>, rows: Seq<Seq<Seq<char>>>, n: nat) -> Seq<nat> {
    Seq::new(n, |i: int| min_col_width(headers, rows, i))
}

/// Sum of a sequence of widths.
pub open spec fn sum(s: Seq<nat>) -> nat
    decreases s.len(),
{
    if s.len() == 0 {
        0
    } else {
        sum(s.drop_last()) + s.last()
    }
}

/// Proportional share of `extra` for a column of minimum `m` out of `total`.
pub open spec fn share(m: nat, extra: nat, total: nat) -> nat {
    m * extra / total
}

/// Widths of the first `k` columns after proportional sharing, and the room
/// still unshared.
pub open spec fn proportional(mins: Seq<nat>, extra: nat, total: nat, k: int) -> (Seq<nat>, nat)
    decreases k,
{
    if k <= 0 {
        (seq![], extra)
    } else {
        let prev = proportional(mins, extra, total, k - 1);
        let s = share(mins[k - 1], extra, total);
        let add = if prev.1 == 0 {
            0
        } else if s < prev.1 {
            s
        } else {
            prev.1
        };
        (prev.0.push(mins[k - 1] + add), (prev.1 - add) as nat)
    }
}

/// Column widths for a table of `n` columns in `avail` characters.
pub open spec fn col_widths(
    headers: Seq<Seq<char>>,
    rows: Seq<Seq<Seq<char>>>,
    avail: nat,
    n: nat,
) -> Seq<nat> {
    if n == 0 || avail == 0 {
        Seq::new(n, |i: int| 0nat)
    } else {
        let mins = min_widths(headers, rows, n);
        let total_min = sum(mins) + (n - 1) as nat;
        if total_min <= avail {
            let p = proportional(mins, (avail - total_min) as nat, sum(mins), n as int);
            Seq::new(
                n,
                |i: int|
                    p.0[i] + if i < p.1 {
                        1nat
                    } else {
                        0nat
                    },
            )
        } else {
            Seq::new(n, |i: int| ceil_div(avail, n))
        }
    }
}

proof fn lemma_sum_push(s: Seq<nat>, x: nat)
    ensures
        sum(s.push(x)) == sum(s) + x,
{
    assert(s.push(x).drop_last() =~= s);
}

proof fn lemma_share_le(m: nat, extra: nat, total: nat)
    requires
        m <= total,
        total > 0,
    ensures
        share(m, extra, total) <= extra,
{
    assert(m * extra <= total * extra) by (nonlinear_arith)
        requires
            m <= total,
    ;
    assert(m * extra / total <= total * extra / total) by (nonlinear_arith)
        requires
            m * extra <= total * extra,
            total > 0,
    ;
    assert(total * extra / total == extra) by (nonlinear_arith)
        requires
            total > 0,
    ;
}

proof fn lemma_sum_ge_elem(s: Seq<nat>, i: int)
    requires
        0 <= i < s.len(),
    ensures
        s[i] <= sum(s),
    decreases s.len(),
{
    if i < s.len() - 1 {
        lemma_sum_ge_elem(s.drop_last(), i);
    }
}

/// Characters of the widest cell `i` of the rows (exec).
fn widest_in_rows(rows: &[Vec<String>], i: usize) -> (m: usize)
    ensures
        m as nat == rows_max_len(row_views(rows@), i as int, rows@.len() as int),
{
    let ghost rv = row_views(rows@);
    let mut m: usize = 0;
    let mut k: usize = 0;
    while k < rows.len()
        invariant
            k <= rows@.len(),
            rv == row_views(rows@),
            m as nat == rows_max_len(rv, i as int, k as int),
        decreases rows@.len() - k,
    {
        let row = &rows[k];
        let c: usize = if i < row.len() {
            chars_of(row[i].as_str()).len()
        } else {
            0
        };
        proof {
            assert(rv[k as int] == cell_views(row@));
            if i < row@.len() {
                assert(rv[k as int][i as int] == row@[i as int]@);
            }
        }
        if c > m {
            m = c;
        }
        k = k + 1;
    }
    m
}

/// Column widths for a table of `num_cols` columns in `available_width`
/// characters: each column gets its minimum (widest cell, at least 3) and the
/// spare room in proportion to the minimums, the rounding remainder one
/// character at a time from the left; when the minimums and the one-character
/// gaps do not fit, every column gets `ceil(available / num_cols)`.
pub fn compute_col_widths(
    headers: &[String],
    rows: &[Vec<String>],
    available_width: usize,
    num_cols: usize,
) -> (widths: Vec<usize>)
    requires
        sum(min_widths(cell_views(headers@), row_views(rows@), num_cols as nat)) + num_cols
            <= usize::MAX,
    ensures
        widths@.len() == num_cols,
        forall|i: int|
            0 <= i < num_cols ==> widths@[i] as nat == #[trigger] col_widths(
                cell_views(headers@),
                row_views(rows@),
                available_width as nat,
                num_cols as nat,
            )[i],
{
    let ghost hv = cell_views(headers@);
    let ghost rv = row_views(rows@);
    let ghost n = num_cols as nat;
    let ghost target = col_widths(hv, rv, available_width as nat, n);
    if num_cols == 0 || available_width == 0 {
        let mut z: Vec<usize> = Vec::new();
        let mut k: usize = 0;
        while k < num_cols
            invariant
                k <= num_cols,
                z@.len() == k,
                forall|j: int| 0 <= j < k ==> z@[j] == 0,
            decreases num_cols - k,
        {
            z.push(0);
            k = k + 1;
        }
        return z;
    }
    let ghost mins_spec = min_widths(hv, rv, n);
    // Minimum widths from content, at least 3.
    let mut mins: Vec<usize> = Vec::new();
    let mut total: usize = 0;
    let mut i: usize = 0;
    while i < num_cols
        invariant
            i <= num_cols,
            n == num_cols as nat,
            hv == cell_views(headers@),
            rv == row_views(rows@),
            mins_spec == min_widths(hv, rv, n),
            sum(mins_spec) + num_cols <= usize::MAX,
            mins@.len() == i,
            forall|j: int| 0 <= j < i ==> mins@[j] as nat == mins_spec[j],
            total as nat == sum(mins_spec.take(i as int)),
        decreases num_cols - i,
    {
        let h: usize = if i < headers.len() {
            chars_of(headers[i].as_str()).len()
        } else {
            0
        };
        proof {
            if i < headers@.len() {
                assert(hv[i as int] == headers@[i as int]@);
            }
        }
        let r = widest_in_rows(rows, i);
        let mut m = if h > r {
            h
        } else {
            r
        };
        if m < 3 {
            m = 3;
        }
        proof {
            assert(mins_spec[i as int] == m as nat);
            assert(mins_spec.take(i as int + 1) =~= mins_spec.take(i as int).push(m as nat));
            lemma_sum_push(mins_spec.take(i as int), m as nat);
            lemma_sum_prefix_le(mins_spec, i as int + 1);
        }
        mins.push(m);
        total = total + m;
        i = i + 1;
    }
    proof {
        assert(mins_spec.take(num_cols as int) =~= mins_spec);
    }
    let spacing = num_cols - 1;
    let total_min = total + spacing;
    if total_min <= available_width {
        let extra = available_width - total_min;
        let ghost p = proportional(mins_spec, extra as nat, total as nat, n as int);
        proof {
            lemma_proportional(mins_spec, extra as nat, total as nat, n as int);
        }
        let mut widths: Vec<usize> = Vec::new();
        let mut remaining = extra;
        let mut k: usize = 0;
        while k < num_cols
            invariant
                k <= num_cols,
                n == num_cols as nat,
                mins@.len() == num_cols,
                forall|j: int| 0 <= j < num_cols ==> mins@[j] as nat == mins_spec[j],
                total as nat == sum(mins_spec),
                total > 0,
                mins_spec.len() == n,
                (widths@.map_values(|x: usize| x as nat), remaining as nat) == proportional(
                    mins_spec,
                    extra as nat,
                    total as nat,
                    k as int,
                ),
                remaining <= extra,
                extra + total <= usize::MAX,
            decreases num_cols - k,
        {
            let m = mins[k];
            proof {
                lemma_sum_ge_elem(mins_spec, k as int);
                lemma_share_le(m as nat, extra as nat, total as nat);
                assert((m as int) * (extra as int) <= 0xffff_ffff_ffff_ffff_ffff_ffff_ffff_ffffint)
                    by (nonlinear_arith)
                    requires
                        m <= 0xffff_ffff_ffff_ffffint,
                        extra <= 0xffff_ffff_ffff_ffffint,
                ;
            }
            let s = ((m as u128) * (extra as u128) / (total as u128)) as usize;
            proof {
                assert(share(m as nat, extra as nat, total as nat) == s as nat);
            }
            let add = if remaining == 0 {
                0
            } else if s < remaining {
                s
            } else {
                remaining
            };
            let ghost prev_w = widths@.map_values(|x: usize| x as nat);
            widths.push(m + add);
            remaining = remaining - add;
            proof {
                assert(widths@.map_values(|x: usize| x as nat) =~= prev_w.push(
                    mins_spec[k as int] + add as nat,
                ));
            }
            k = k + 1;
        }
        // Rounding remainder, one character at a time from the left.
        let ghost shared = widths@;
        let ghost rem0 = remaining;
        proof {
            assert(widths@.map_values(|x: usize| x as nat).len() == widths@.len());
            assert forall|q: int| 0 <= q < num_cols implies shared[q] + rem0 <= total + extra by {
                let wn = widths@.map_values(|x: usize| x as nat);
                lemma_sum_ge_elem(wn, q);
                assert(wn[q] == shared[q] as nat);
            }
        }
        let mut j: usize = 0;
        while remaining > 0 && j < num_cols
            invariant
                j <= num_cols,
                widths@.len() == num_cols,
                shared.len() == num_cols,
                remaining as int == rem0 - j,
                forall|q: int| 0 <= q < j ==> widths@[q] == shared[q] + 1,
                forall|q: int| j <= q < num_cols ==> widths@[q] == shared[q],
                forall|q: int| 0 <= q < num_cols ==> shared[q] + rem0 <= total + extra,
                extra + total <= usize::MAX,
            decreases num_cols - j,
        {
            let w = widths[j];
            assert(w == shared[j as int]);
            assert(shared[j as int] + rem0 <= total + extra);
            widths.set(j, w + 1);
            remaining = remaining - 1;
            j = j + 1;
        }
        proof {
            assert forall|q: int| 0 <= q < num_cols implies widths@[q] as nat == #[trigger] target[q] by {
                let wn = shared.map_values(|x: usize| x as nat);
                assert(p.0 == wn);
                assert(p.0[q] == shared[q] as nat);
                if remaining > 0 {
                    assert(j == num_cols);
                }
            }
        }
        return widths;
    }
    // The minimums do not fit: split the room evenly.
    let base = available_width / num_cols + if available_width % num_cols == 0 {
        0
    } else {
        1
    };
    let mut widths: Vec<usize> = Vec::new();
    let mut k: usize = 0;
    while k < num_cols
        invariant
            k <= num_cols,
            widths@.len() == k,
            base as nat == ceil_div(available_width as nat, num_cols as nat),
            forall|j: int| 0 <= j < k ==> widths@[j] == base,
        decreases num_cols - k,
    {
        widths.push(base);
        k = k + 1;
    }
    widths
}

/// Sharing keeps every column at least at its minimum and hands out
/// exactly the spare room (shared plus still unshared).
proof fn lemma_proportional(mins: Seq<nat>, extra: nat, total: nat, k: int)
    requires
        0 <= k <= mins.len(),
    ensures
        proportional(mins, extra, total, k).0.len() == k,
        proportional(mins, extra, total, k).1 <= extra,
        sum(proportional(mins, extra, total, k).0) + proportional(mins, extra, total, k).1 == sum(
            mins.take(k),
        ) + extra,
        forall|q: int|
            0 <= q < k ==> #[trigger] proportional(mins, extra, total, k).0[q] >= mins[q],
    decreases k,
{
    if k > 0 {
        lemma_proportional(mins, extra, total, k - 1);
        let prev = proportional(mins, extra, total, k - 1);
        let cur = proportional(mins, extra, total, k);
        assert(mins.take(k).drop_last() =~= mins.take(k - 1));
        assert(cur.0.drop_last() =~= prev.0);
        assert forall|q: int| 0 <= q < k implies #[trigger] cur.0[q] >= mins[q] by {
            if q < k - 1 {
                assert(cur.0[q] == prev.0[q]);
            }
        }
    }
}

proof fn lemma_sum_prefix_le(s: Seq<nat>, k: int)
    requires
        0 <= k <= s.len(),
    ensures
        sum(s.take(k)) <= sum(s),
    decreases s.len() - k,
{
    if k < s.len() {
        lemma_sum_prefix_le(s, k + 1);
        assert(s.take(k + 1).drop_last() =~= s.take(k));
    } else {
        assert(s.take(k) =~= s);
    }
}


/// Sum of the first `k` proportional shares.
pub open spec fn share_sum(mins: Seq<nat>, extra: nat, total: nat, k: int) -> nat
    decreases k,
{
    if k <= 0 {
        0
    } else {
        share_sum(mins, extra, total, k - 1) + share(mins[k - 1], extra, total)
    }
}

/// `a` with one more character for each of the first `r` entries.
pub open spec fn bump(a: Seq<nat>, r: nat) -> Seq<nat> {
    Seq::new(
        a.len(),
        |i: int|
            a[i] + if i < r {
                1nat
            } else {
                0nat
            },
    )
}

proof fn lemma_share_bounds(m: nat, e: nat, t: nat)
    requires
        t > 0,
    ensures
        t * share(m, e, t) <= m * e,
        m * e <= t * share(m, e, t) + t - 1,
{
    let x = (m * e) as int;
    vstd::arithmetic::div_mod::lemma_fundamental_div_mod(x, t as int);
    vstd::arithmetic::div_mod::lemma_mod_bound(x, t as int);
}

/// Floors of proportional shares lose less than one character per column,
/// and no share is cut short by the room still unshared.
proof fn lemma_share_sum(mins: Seq<nat>, extra: nat, total: nat, k: int)
    requires
        0 <= k <= mins.len(),
        total == sum(mins),
        total > 0,
    ensures
        proportional(mins, extra, total, k).1 + share_sum(mins, extra, total, k) == extra,
        total * share_sum(mins, extra, total, k) <= extra * sum(mins.take(k)),
        extra * sum(mins.take(k)) <= total * share_sum(mins, extra, total, k) + k * (total - 1),
    decreases k,
{
    if k > 0 {
        lemma_share_sum(mins, extra, total, k - 1);
        let m = mins[k - 1];
        let sp = share_sum(mins, extra, total, k - 1);
        let s = share(m, extra, total);
        let mp = sum(mins.take(k - 1));
        assert(mins.take(k).drop_last() =~= mins.take(k - 1));
        assert(sum(mins.take(k)) == mp + m);
        lemma_share_bounds(m, extra, total);
        lemma_sum_prefix_le(mins, k);
        // total * (sp + s) <= extra * (mp + m) <= extra * total, so sp + s <= extra
        assert(total * (sp + s) == total * sp + total * s) by (nonlinear_arith);
        assert(extra * (mp + m) == extra * mp + extra * m) by (nonlinear_arith);
        assert(m * extra == extra * m) by (nonlinear_arith);
        assert(extra * (mp + m) <= extra * total) by (nonlinear_arith)
            requires
                mp + m <= total,
        ;
        assert(sp + s <= extra) by (nonlinear_arith)
            requires
                total * (sp + s) <= extra * total,
                total > 0,
        ;
        assert(k * (total - 1) == (k - 1) * (total - 1) + (total - 1)) by (nonlinear_arith);
        assert(share_sum(mins, extra, total, k) == sp + s);
        assert(extra * sum(mins.take(k)) == extra * mp + extra * m);
        assert(extra * mp <= total * sp + (k - 1) * (total - 1));
        assert(extra * m <= total * s + total - 1);
        assert(extra * sum(mins.take(k)) <= total * (sp + s) + k * (total - 1));
    } else {
        assert(mins.take(0) =~= Seq::<nat>::empty());
        assert(extra * 0 == 0) by (nonlinear_arith);
        assert(total * 0 == 0) by (nonlinear_arith);
    }
}

proof fn lemma_sum_bump(a: Seq<nat>, r: nat)
    requires
        r <= a.len(),
    ensures
        sum(bump(a, r)) == sum(a) + r,
    decreases a.len(),
{
    if a.len() > 0 {
        let init = a.drop_last();
        let r2: nat = if r == a.len() {
            (r - 1) as nat
        } else {
            r
        };
        lemma_sum_bump(init, r2);
        assert(bump(a, r).drop_last() =~= bump(init, r2));
    }
}

/// Law: when the minimum widths and the one-character gaps fit, every
/// column keeps at least its minimum and the columns with their gaps fill
/// the available width exactly.
pub proof fn law_col_widths_fill_row(
    headers: Seq<Seq<char>>,
    rows: Seq<Seq<Seq<char>>>,
    avail: nat,
    n: nat,
)
    requires
        n > 0,
        sum(min_widths(headers, rows, n)) + (n - 1) <= avail,
    ensures
        sum(col_widths(headers, rows, avail, n)) + (n - 1) == avail,
        col_widths(headers, rows, avail, n).len() == n,
        forall|i: int|
            0 <= i < n ==> #[trigger] col_widths(headers, rows, avail, n)[i] >= min_widths(
                headers,
                rows,
                n,
            )[i],
{
    let mins = min_widths(headers, rows, n);
    let t = sum(mins);
    assert(mins[0] >= 3);
    lemma_sum_ge_elem(mins, 0);
    let e = (avail - (t + (n - 1))) as nat;
    let p = proportional(mins, e, t, n as int);
    lemma_proportional(mins, e, t, n as int);
    lemma_share_sum(mins, e, t, n as int);
    let ss = share_sum(mins, e, t, n as int);
    assert(mins.take(n as int) =~= mins);
    // e * t <= t * ss + n * (t - 1) < t * (ss + n), so e < ss + n
    assert(e < ss + n) by (nonlinear_arith)
        requires
            e * t <= t * ss + n * (t - 1),
            t > 0,
            n > 0,
    ;
    assert(p.1 <= n - 1);
    let w = col_widths(headers, rows, avail, n);
    assert(w =~= bump(p.0, p.1));
    lemma_sum_bump(p.0, p.1);
    assert(sum(p.0) + p.1 == t + e);
}

} // verus!
