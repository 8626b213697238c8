use vstd::prelude::*;
use crate::shape::{
    MaskCell, Rotation, is_rect, width, rot90, rot180, rotated, column_cells, cells_upto, solid_cells,
    lemma_rot90_rect, lemma_rot180_rect,
};

verus! {

/// Sum of the first `n` entries of `s`.
pub open spec fn total(s: Seq<nat>, n: nat) -> nat
    decreases n,
{
    if n == 0 {
        0
    } else {
        total(s, (n - 1) as nat) + s[n - 1]
    }
}

/// `s` in reverse order.
pub open spec fn reversed<T>(s: Seq<T>) -> Seq<T> {
    Seq::new(s.len(), |i: int| s[s.len() - 1 - i])
}

/// One for each non-`Empty` cell of a row, zero for each `Empty` one.
pub open spec fn marks(r: Seq<MaskCell>) -> Seq<nat> {
    Seq::new(r.len(), |i: int| if r[i] != MaskCell::Empty { 1nat } else { 0nat })
}

/// Column `c` of a mask, top to bottom.
pub open spec fn column(m: Seq<Seq<MaskCell>>, c: int) -> Seq<MaskCell> {
    Seq::new(m.len(), |i: int| m[i][c])
}

/// Number of non-`Empty` cells in the first `k` columns of the first `n` rows, row by row.
pub open spec fn rows_count(m: Seq<Seq<MaskCell>>, k: nat, n: nat) -> nat
    decreases n,
{
    if n == 0 {
        0
    } else {
        rows_count(m, k, (n - 1) as nat) + total(marks(m[n - 1]), k)
    }
}

proof fn lemma_total_ext(s: Seq<nat>, t: Seq<nat>, n: nat)
    requires
        forall|i: int| 0 <= i < n ==> s[i] == t[i],
    ensures
        total(s, n) == total(t, n),
    decreases n,
{
    if n > 0 {
        lemma_total_ext(s, t, (n - 1) as nat);
    }
}

proof fn lemma_total_reversed(s: Seq<nat>, n: nat)
    requires
        n <= s.len(),
    ensures
        total(reversed(s), n) + total(s, (s.len() - n) as nat) == total(s, s.len()),
    decreases n,
{
    if n > 0 {
        lemma_total_reversed(s, (n - 1) as nat);
        assert(reversed(s)[n - 1] == s[s.len() - n]);
    }
}

proof fn lemma_column_len(m: Seq<Seq<MaskCell>>, c: int, n: nat)
    requires
        n <= m.len(),
    ensures
        column_cells(m, c, n).len() == total(marks(column(m, c)), n),
    decreases n,
{
    if n > 0 {
        lemma_column_len(m, c, (n - 1) as nat);
    }
}

proof fn lemma_rows_step(m: Seq<Seq<MaskCell>>, k: nat, n: nat)
    requires
        is_rect(m),
        1 <= k <= width(m),
        n <= m.len(),
    ensures
        rows_count(m, k, n) == rows_count(m, (k - 1) as nat, n) + total(marks(column(m, k - 1)), n),
    decreases n,
{
    if n > 0 {
        lemma_rows_step(m, k, (n - 1) as nat);
        assert(m[n - 1].len() == m[0].len());
        assert(marks(column(m, k - 1))[n - 1] == marks(m[n - 1])[k - 1]);
    }
}

/// The column-by-column scan finds as many cells as a count row by row.
proof fn lemma_scan_count(m: Seq<Seq<MaskCell>>, k: nat)
    requires
        is_rect(m),
        k <= width(m),
    ensures
        cells_upto(m, k).len() == rows_count(m, k, m.len()),
    decreases k,
{
    if k == 0 {
        lemma_rows_zero(m, m.len());
    } else {
        lemma_scan_count(m, (k - 1) as nat);
        lemma_column_len(m, k - 1, m.len());
        lemma_rows_step(m, k, m.len());
    }
}

proof fn lemma_rows_zero(m: Seq<Seq<MaskCell>>, n: nat)
    ensures
        rows_count(m, 0, n) == 0,
    decreases n,
{
    if n > 0 {
        lemma_rows_zero(m, (n - 1) as nat);
    }
}

/// Row totals of a mask, top to bottom.
spec fn row_totals(m: Seq<Seq<MaskCell>>, k: nat) -> Seq<nat> {
    Seq::new(m.len(), |i: int| total(marks(m[i]), k))
}

proof fn lemma_rows_count_totals(m: Seq<Seq<MaskCell>>, k: nat, n: nat)
    requires
        n <= m.len(),
    ensures
        rows_count(m, k, n) == total(row_totals(m, k), n),
    decreases n,
{
    if n > 0 {
        lemma_rows_count_totals(m, k, (n - 1) as nat);
    }
}

/// A quarter turn keeps the number of scanned cells.
proof fn lemma_count_rot90(m: Seq<Seq<MaskCell>>)
    requires
        is_rect(m),
        width(m) > 0,
    ensures
        solid_cells(rot90(m)).len() == solid_cells(m).len(),
{
    let w = width(m);
    let h = m.len() as int;
    let q = rot90(m);
    lemma_rot90_rect(m);
    lemma_scan_count(m, w as nat);
    lemma_rows_count_totals(m, w as nat, h as nat);
    // column `c` of the turned mask is row `c` reversed
    assert forall|c: int| 0 <= c < h implies #[trigger] total(marks(column(q, c)), w as nat) == row_totals(m, w as nat)[c] by {
        assert(m[c].len() == w);
        assert(marks(column(q, c)) =~= reversed(marks(m[c])));
        lemma_total_reversed(marks(m[c]), w as nat);
    }
    lemma_cols_total(q, h as nat, row_totals(m, w as nat));
}

/// Column totals of the first `k` columns add up as the scan counts them.
proof fn lemma_cols_total(q: Seq<Seq<MaskCell>>, k: nat, t: Seq<nat>)
    requires
        forall|c: int| 0 <= c < k ==> #[trigger] total(marks(column(q, c)), q.len()) == t[c],
    ensures
        cells_upto(q, k).len() == total(t, k),
    decreases k,
{
    if k > 0 {
        lemma_cols_total(q, (k - 1) as nat, t);
        lemma_column_len(q, k - 1, q.len());
    }
}

/// A half turn keeps the number of scanned cells.
proof fn lemma_count_rot180(m: Seq<Seq<MaskCell>>)
    requires
        is_rect(m),
        width(m) > 0,
    ensures
        solid_cells(rot180(m)).len() == solid_cells(m).len(),
{
    let w = width(m);
    let h = m.len() as int;
    let r = rot180(m);
    lemma_rot180_rect(m);
    lemma_scan_count(m, w as nat);
    lemma_scan_count(r, w as nat);
    lemma_rows_count_totals(m, w as nat, h as nat);
    lemma_rows_count_totals(r, w as nat, h as nat);
    assert forall|i: int| 0 <= i < h implies #[trigger] row_totals(r, w as nat)[i] == reversed(row_totals(m, w as nat))[i] by {
        assert(m[h - 1 - i].len() == w);
        assert(marks(r[i]) =~= reversed(marks(m[h - 1 - i])));
        lemma_total_reversed(marks(m[h - 1 - i]), w as nat);
    }
    lemma_total_ext(row_totals(r, w as nat), reversed(row_totals(m, w as nat)), h as nat);
    lemma_total_reversed(row_totals(m, w as nat), h as nat);
}

/// Turning a rectangular mask keeps the number of its non-`Empty` cells.
pub proof fn lemma_count_rotated(m: Seq<Seq<MaskCell>>, rot: Rotation)
    requires
        is_rect(m),
        width(m) > 0,
    ensures
        solid_cells(rotated(m, rot)).len() == solid_cells(m).len(),
{
    lemma_count_rot90(m);
    lemma_count_rot180(m);
    lemma_rot90_rect(m);
    lemma_count_rot180(rot90(m));
}

} // verus!
