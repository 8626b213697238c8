use vstd::prelude::*;

verus! {

/// One cell of a piece's shape mask.
#[derive(Clone, Copy, Debug, PartialEq, Eq, Structural)]
pub enum MaskCell {
    Solid,
    Pivot,
    Empty,
}

#[derive(Clone, Copy, Debug, PartialEq, Eq, Structural)]
pub enum Rotation {
    Zero,
    Ninety,
    OneEighty,
    TwoSeventy,
}

impl Rotation {
    pub open spec fn quarter_turns(self) -> nat {
        match self {
            Rotation::Zero => 0,
            Rotation::Ninety => 1,
            Rotation::OneEighty => 2,
            Rotation::TwoSeventy => 3,
        }
    }

    /// The rotation a further quarter turn clockwise.
    pub fn next_clockwise(self) -> (r: Rotation)
        ensures
            r.quarter_turns() == (self.quarter_turns() + 1) % 4,
    {
        match self {
            Rotation::Zero => Rotation::Ninety,
            Rotation::Ninety => Rotation::OneEighty,
            Rotation::OneEighty => Rotation::TwoSeventy,
            Rotation::TwoSeventy => Rotation::Zero,
        }
    }
}

/// Shape mask of `m` turned by `rot`, as the piece catalog orients it.
pub open spec fn rotated<T>(m: Seq<Seq<T>>, rot: Rotation) -> Seq<Seq<T>> {
    match rot {
        Rotation::Zero => m,
        Rotation::Ninety => rot90(m),
        Rotation::OneEighty => rot180(m),
        Rotation::TwoSeventy => rot180(rot90(m)),
    }
}

/// A half turn of a rectangular mask is rectangular, with the same dimensions.
pub proof fn lemma_rot180_rect<T>(m: Seq<Seq<T>>)
    requires
        is_rect(m),
    ensures
        is_rect(rot180(m)),
        rot180(m).len() == m.len(),
        width(rot180(m)) == width(m),
{
    assert(m[m.len() - 1].len() == m[0].len());
    assert forall|i: int| 0 <= i < m.len() implies #[trigger] rot180(m)[i].len() == rot180(m)[0].len() by {
        assert(m[m.len() - 1 - i].len() == m[0].len());
    }
}

/// Turning a rectangular mask keeps it rectangular; the dimensions are swapped by an odd number of quarter turns.
pub proof fn lemma_rotated_rect<T>(m: Seq<Seq<T>>, rot: Rotation)
    requires
        is_rect(m),
        width(m) > 0,
    ensures
        is_rect(rotated(m, rot)),
        width(rotated(m, rot)) > 0,
        rotated(m, rot).len() <= if m.len() >= width(m) { m.len() as int } else { width(m) },
        width(rotated(m, rot)) <= if m.len() >= width(m) { m.len() as int } else { width(m) },
{
    lemma_rot90_rect(m);
    lemma_rot180_rect(m);
    lemma_rot180_rect(rot90(m));
}

/// The rows of a nested vector, as sequences.
pub open spec fn rows_of<T>(m: &Vec<Vec<T>>) -> Seq<Seq<T>> {
    Seq::new(m@.len(), |i: int| m@[i]@)
}

/// A mask with at least one row, every row as long as the first.
pub open spec fn is_rect<T>(m: Seq<Seq<T>>) -> bool {
    &&& m.len() > 0
    &&& forall|i: int| 0 <= i < m.len() ==> #[trigger] m[i].len() == m[0].len()
}

/// Number of columns of a mask (the length of its first row).
pub open spec fn width<T>(m: Seq<Seq<T>>) -> int {
    m[0].len() as int
}

/// Clockwise quarter turn: output row `r` lists, top to bottom, the input column `width - 1 - r`.
pub open spec fn rot90<T>(m: Seq<Seq<T>>) -> Seq<Seq<T>> {
    Seq::new(
        m[0].len(),
        |r: int| Seq::new(m.len(), |i: int| m[i][m[0].len() - 1 - r]),
    )
}

/// Half turn: rows in reverse order, each row reversed.
pub open spec fn rot180<T>(m: Seq<Seq<T>>) -> Seq<Seq<T>> {
    Seq::new(
        m.len(),
        |i: int| Seq::new(m[m.len() - 1 - i].len(), |j: int| m[m.len() - 1 - i][m[m.len() - 1 - i].len() - 1 - j]),
    )
}

/// Quarter turn applied to a nested vector.
pub fn rot_piece_90<T: Copy>(piece_map: &Vec<Vec<T>>) -> (out: Vec<Vec<T>>)
    requires
        is_rect(rows_of(piece_map)),
    ensures
        rows_of(&out) == rot90(rows_of(piece_map)),
{
    let ghost m = rows_of(piece_map);
    let col_count = piece_map[0].len();
    let row_count = piece_map.len();
    let mut output: Vec<Vec<T>> = Vec::new();
    let mut r: usize = 0;
    while r < col_count
        invariant
            m == rows_of(piece_map),
            is_rect(m),
            col_count == m[0].len(),
            row_count == m.len(),
            r <= col_count,
            output@.len() == r,
            forall|k: int| 0 <= k < r ==> #[trigger] output@[k]@ == rot90(m)[k],
        decreases col_count - r,
    {
        let col = col_count - 1 - r;
        let mut line: Vec<T> = Vec::new();
        let mut i: usize = 0;
        while i < row_count
            invariant
                m == rows_of(piece_map),
                is_rect(m),
                col_count == m[0].len(),
                row_count == m.len(),
                r < col_count,
                col == col_count - 1 - r,
                i <= row_count,
                line@.len() == i,
                forall|k: int| 0 <= k < i ==> #[trigger] line@[k] == m[k][col as int],
            decreases row_count - i,
        {
            assert(m[i as int].len() == m[0].len());
            line.push(piece_map[i][col]);
            i = i + 1;
        }
        assert(line@ =~= rot90(m)[r as int]);
        output.push(line);
        r = r + 1;
    }
    assert(rows_of(&output) =~= rot90(m));
    output
}

/// Half turn applied to a nested vector.
pub fn rot_piece_180<T: Copy>(piece_map: &Vec<Vec<T>>) -> (out: Vec<Vec<T>>)
    ensures
        rows_of(&out) == rot180(rows_of(piece_map)),
{
    let ghost m = rows_of(piece_map);
    let row_count = piece_map.len();
    let mut output: Vec<Vec<T>> = Vec::new();
    let mut i: usize = 0;
    while i < row_count
        invariant
            m == rows_of(piece_map),
            row_count == m.len(),
            i <= row_count,
            output@.len() == i,
            forall|k: int| 0 <= k < i ==> #[trigger] output@[k]@ == rot180(m)[k],
        decreases row_count - i,
    {
        let src = &piece_map[row_count - 1 - i];
        let n = src.len();
        let mut line: Vec<T> = Vec::new();
        let mut j: usize = 0;
        while j < n
            invariant
                m == rows_of(piece_map),
                row_count == m.len(),
                i < row_count,
                src@ == m[row_count - 1 - i],
                n == src@.len(),
                j <= n,
                line@.len() == j,
                forall|k: int| 0 <= k < j ==> #[trigger] line@[k] == src@[n - 1 - k],
            decreases n - j,
        {
            line.push(src[n - 1 - j]);
            j = j + 1;
        }
        assert(line@ =~= rot180(m)[i as int]);
        output.push(line);
        i = i + 1;
    }
    assert(rows_of(&output) =~= rot180(m));
    output
}

/// Integer view of a list of `i8` coordinate pairs.
pub open spec fn pairs_of(v: Seq<(i8, i8)>) -> Seq<(int, int)> {
    v.map_values(|p: (i8, i8)| (p.0 as int, p.1 as int))
}

/// Cells `(c, r)` with `r < n` of column `c` that are not `Empty`, top to bottom.
pub open spec fn column_cells(m: Seq<Seq<MaskCell>>, c: int, n: nat) -> Seq<(int, int)>
    decreases n,
{
    if n == 0 {
        seq![]
    } else {
        column_cells(m, c, (n - 1) as nat) + if m[n - 1][c] != MaskCell::Empty {
            seq![(c, n - 1)]
        } else {
            seq![]
        }
    }
}

/// Non-`Empty` cells of the first `k` columns, column by column.
pub open spec fn cells_upto(m: Seq<Seq<MaskCell>>, k: nat) -> Seq<(int, int)>
    decreases k,
{
    if k == 0 {
        seq![]
    } else {
        cells_upto(m, (k - 1) as nat) + column_cells(m, k - 1, m.len())
    }
}

/// Every non-`Empty` cell of a mask as `(column, row)`, scanned column by column.
pub open spec fn solid_cells(m: Seq<Seq<MaskCell>>) -> Seq<(int, int)> {
    cells_upto(m, m[0].len())
}

/// The last `Pivot` among the first `n` rows of column `c`, or `before` if there is none.
pub open spec fn column_pivot(m: Seq<Seq<MaskCell>>, c: int, n: nat, before: (int, int)) -> (int, int)
    decreases n,
{
    if n == 0 {
        before
    } else if m[n - 1][c] == MaskCell::Pivot {
        (c, n - 1)
    } else {
        column_pivot(m, c, (n - 1) as nat, before)
    }
}

/// The last `Pivot` met when scanning the first `k` columns, or `(0, 0)` if there is none.
pub open spec fn pivot_upto(m: Seq<Seq<MaskCell>>, k: nat) -> (int, int)
    decreases k,
{
    if k == 0 {
        (0, 0)
    } else {
        column_pivot(m, k - 1, m.len(), pivot_upto(m, (k - 1) as nat))
    }
}

/// Position `(column, row)` of the mask's pivot cell.
pub open spec fn pivot_of(m: Seq<Seq<MaskCell>>) -> (int, int) {
    pivot_upto(m, m[0].len())
}

/// `(c, r)` is the mask's one and only pivot cell.
pub open spec fn only_pivot_at(m: Seq<Seq<MaskCell>>, r: int, c: int) -> bool {
    &&& 0 <= r < m.len() && 0 <= c < m[r].len() && m[r][c] == MaskCell::Pivot
    &&& forall|a: int, b: int| 0 <= a < m.len() && 0 <= b < m[a].len() && #[trigger] m[a][b] == MaskCell::Pivot ==> a == r && b == c
}

/// A row whose only possible pivot is at column `c` counts one pivot if it has it there, none otherwise.
pub proof fn lemma_row_pivots(row: Seq<MaskCell>, c: int)
    requires
        forall|j: int| 0 <= j < row.len() && #[trigger] row[j] == MaskCell::Pivot ==> j == c,
    ensures
        row_pivots(row) == if 0 <= c < row.len() && row[c] == MaskCell::Pivot {
            1nat
        } else {
            0nat
        },
    decreases row.len(),
{
    if row.len() > 0 {
        let init = row.drop_last();
        assert forall|j: int| 0 <= j < init.len() && #[trigger] init[j] == MaskCell::Pivot implies j == c by {
            assert(row[j] == init[j]);
        }
        lemma_row_pivots(init, c);
        if 0 <= c < init.len() {
            assert(init[c] == row[c]);
        }
    }
}

/// A mask whose pivots can only stand at `(c, r)` counts one pivot if that cell is one, none otherwise.
pub proof fn lemma_pivot_total_at(m: Seq<Seq<MaskCell>>, r: int, c: int)
    requires
        0 <= r,
        forall|a: int, b: int| 0 <= a < m.len() && 0 <= b < m[a].len() && #[trigger] m[a][b] == MaskCell::Pivot ==> a == r && b == c,
        r < m.len() ==> 0 <= c < m[r].len() && m[r][c] == MaskCell::Pivot,
    ensures
        pivot_total(m) == if r < m.len() {
            1nat
        } else {
            0nat
        },
    decreases m.len(),
{
    if m.len() > 0 {
        let init = m.drop_last();
        assert forall|a: int, b: int| 0 <= a < init.len() && 0 <= b < init[a].len() && #[trigger] init[a][b] == MaskCell::Pivot implies a == r && b == c by {
            assert(m[a][b] == init[a][b]);
        }
        if r < init.len() {
            assert(init[r] == m[r]);
        }
        lemma_pivot_total_at(init, r, c);
        let last = m.last();
        let k = m.len() - 1;
        assert forall|j: int| 0 <= j < last.len() && #[trigger] last[j] == MaskCell::Pivot implies j == c by {
            assert(m[k][j] == MaskCell::Pivot);
        }
        lemma_row_pivots(last, c);
        if r != k {
            if 0 <= c < last.len() && last[c] == MaskCell::Pivot {
                assert(m[k][c] == MaskCell::Pivot);
            }
        }
    }
}

/// Turning a rectangular mask keeps a pivot cell in it.
pub proof fn lemma_rotated_has_pivot(m: Seq<Seq<MaskCell>>, rot: Rotation)
    requires
        is_rect(m),
        width(m) > 0,
        has_pivot(m),
    ensures
        has_pivot(rotated(m, rot)),
{
    let (r, c) = choose|r: int, c: int| 0 <= r < m.len() && 0 <= c < m[r].len() && #[trigger] m[r][c] == MaskCell::Pivot;
    assert(m[r].len() == m[0].len());
    let w = width(m);
    let h = m.len() as int;
    lemma_rot90_rect(m);
    let q = rot90(m);
    assert(q[w - 1 - c][r] == MaskCell::Pivot);
    assert(rot180(m)[h - 1 - r][w - 1 - c] == MaskCell::Pivot) by {
        assert(m[h - 1 - (h - 1 - r)].len() == m[0].len());
    }
    assert(rot180(q)[w - 1 - (w - 1 - c)][h - 1 - r] == MaskCell::Pivot) by {
        assert(q[w - 1 - c].len() == h);
        assert(q[w - 1 - (w - 1 - (w - 1 - c))].len() == h);
    }
}

/// Some cell of the mask is the pivot.
pub open spec fn has_pivot(m: Seq<Seq<MaskCell>>) -> bool {
    exists|r: int, c: int| 0 <= r < m.len() && 0 <= c < m[r].len() && #[trigger] m[r][c] == MaskCell::Pivot
}

/// The column scan ends on `before`, or on a pivot of column `c` above row `n`;
/// on the latter whenever that part of the column holds a pivot.
pub proof fn lemma_column_pivot(m: Seq<Seq<MaskCell>>, c: int, n: nat, before: (int, int))
    ensures
        ({
            let p = column_pivot(m, c, n, before);
            p == before || (p.0 == c && 0 <= p.1 < n && m[p.1][c] == MaskCell::Pivot)
        }),
        (exists|r: int| 0 <= r < n && #[trigger] m[r][c] == MaskCell::Pivot) ==> ({
            let p = column_pivot(m, c, n, before);
            p.0 == c && 0 <= p.1 < n && m[p.1][c] == MaskCell::Pivot
        }),
    decreases n,
{
    if n > 0 {
        lemma_column_pivot(m, c, (n - 1) as nat, before);
    }
}

/// After scanning `k` columns that hold a pivot, the pivot found is a pivot cell among them.
pub proof fn lemma_pivot_upto(m: Seq<Seq<MaskCell>>, k: nat)
    ensures
        (exists|r: int, c: int| 0 <= r < m.len() && 0 <= c < k && #[trigger] m[r][c] == MaskCell::Pivot) ==> ({
            let p = pivot_upto(m, k);
            0 <= p.0 < k && 0 <= p.1 < m.len() && m[p.1][p.0] == MaskCell::Pivot
        }),
    decreases k,
{
    if k > 0 {
        lemma_pivot_upto(m, (k - 1) as nat);
        lemma_column_pivot(m, k - 1, m.len(), pivot_upto(m, (k - 1) as nat));
        if exists|r: int, c: int| 0 <= r < m.len() && 0 <= c < k && #[trigger] m[r][c] == MaskCell::Pivot {
            let (r, c) = choose|r: int, c: int| 0 <= r < m.len() && 0 <= c < k && #[trigger] m[r][c] == MaskCell::Pivot;
            if c == k - 1 {
                assert(m[r][k - 1] == MaskCell::Pivot);
            } else {
                assert(m[r][c] == MaskCell::Pivot);
            }
        }
    }
}

/// A non-`Empty` cell of column `c` above row `n` is found by the column scan.
pub proof fn lemma_column_cells_has(m: Seq<Seq<MaskCell>>, c: int, n: nat, r: int)
    requires
        0 <= r < n,
        m[r][c] != MaskCell::Empty,
    ensures
        column_cells(m, c, n).contains((c, r)),
    decreases n,
{
    let prev = column_cells(m, c, (n - 1) as nat);
    if r == n - 1 {
        assert(column_cells(m, c, n)[prev.len() as int] == (c, r));
    } else {
        lemma_column_cells_has(m, c, (n - 1) as nat, r);
        let i = choose|i: int| 0 <= i < prev.len() && prev[i] == (c, r);
        assert(column_cells(m, c, n)[i] == (c, r));
    }
}

/// A non-`Empty` cell in the first `k` columns is found by the scan.
pub proof fn lemma_cells_upto_has(m: Seq<Seq<MaskCell>>, k: nat, c: int, r: int)
    requires
        0 <= c < k,
        0 <= r < m.len(),
        m[r][c] != MaskCell::Empty,
    ensures
        cells_upto(m, k).contains((c, r)),
    decreases k,
{
    let prev = cells_upto(m, (k - 1) as nat);
    let col = column_cells(m, k - 1, m.len());
    if c == k - 1 {
        lemma_column_cells_has(m, c, m.len(), r);
        let i = choose|i: int| 0 <= i < col.len() && col[i] == (c, r);
        assert(cells_upto(m, k)[prev.len() + i] == (c, r));
    } else {
        lemma_cells_upto_has(m, (k - 1) as nat, c, r);
        let i = choose|i: int| 0 <= i < prev.len() && prev[i] == (c, r);
        assert(cells_upto(m, k)[i] == (c, r));
    }
}

/// In a rectangular mask that has a pivot, the scan's pivot is a pivot cell,
/// and it is among the scanned cells.
pub proof fn lemma_pivot_found(m: Seq<Seq<MaskCell>>)
    requires
        is_rect(m),
        has_pivot(m),
    ensures
        0 <= pivot_of(m).1 < m.len(),
        0 <= pivot_of(m).0 < width(m),
        m[pivot_of(m).1][pivot_of(m).0] == MaskCell::Pivot,
        solid_cells(m).contains(pivot_of(m)),
{
    let (r, c) = choose|r: int, c: int| 0 <= r < m.len() && 0 <= c < m[r].len() && #[trigger] m[r][c] == MaskCell::Pivot;
    assert(m[r].len() == m[0].len());
    lemma_pivot_upto(m, m[0].len());
    let p = pivot_of(m);
    lemma_cells_upto_has(m, m[0].len(), p.0, p.1);
}

/// Scans a mask column by column, top to bottom, and returns the position
/// `(column, row)` of every non-`Empty` cell, and that of the pivot.
pub fn mask_to_coords(piece_map: &Vec<Vec<MaskCell>>) -> (res: (Vec<(i8, i8)>, (i8, i8)))
    requires
        is_rect(rows_of(piece_map)),
        piece_map@.len() <= 127,
        piece_map@[0]@.len() <= 127,
    ensures
        pairs_of(res.0@) == solid_cells(rows_of(piece_map)),
        (res.1.0 as int, res.1.1 as int) == pivot_of(rows_of(piece_map)),
        has_pivot(rows_of(piece_map)) ==> rows_of(piece_map)[res.1.1 as int][res.1.0 as int] == MaskCell::Pivot
            && pairs_of(res.0@).contains((res.1.0 as int, res.1.1 as int)),
        forall|r: int, c: int| #[trigger] only_pivot_at(rows_of(piece_map), r, c) ==> res.1.0 == c && res.1.1 == r,
{
    let ghost m = rows_of(piece_map);
    let col_count = piece_map[0].len();
    let row_count = piece_map.len();
    let mut coords: Vec<(i8, i8)> = Vec::new();
    let mut pivot: (i8, i8) = (0, 0);
    let mut col: usize = 0;
    while col < col_count
        invariant
            m == rows_of(piece_map),
            is_rect(m),
            col_count == m[0].len(),
            row_count == m.len(),
            row_count <= 127,
            col_count <= 127,
            col <= col_count,
            pairs_of(coords@) == cells_upto(m, col as nat),
            (pivot.0 as int, pivot.1 as int) == pivot_upto(m, col as nat),
        decreases col_count - col,
    {
        let ghost start = (pivot.0 as int, pivot.1 as int);
        let mut row: usize = 0;
        while row < row_count
            invariant
                m == rows_of(piece_map),
                is_rect(m),
                col_count == m[0].len(),
                row_count == m.len(),
                row_count <= 127,
                col_count <= 127,
                col < col_count,
                row <= row_count,
                start == pivot_upto(m, col as nat),
                pairs_of(coords@) == cells_upto(m, col as nat) + column_cells(m, col as int, row as nat),
                (pivot.0 as int, pivot.1 as int) == column_pivot(m, col as int, row as nat, start),
            decreases row_count - row,
        {
            assert(m[row as int].len() == m[0].len());
            let cell = piece_map[row][col];
            let ghost before = coords@;
            if cell != MaskCell::Empty {
                coords.push((col as i8, row as i8));
                assert(pairs_of(coords@) =~= pairs_of(before).push((col as int, row as int)));
            }
            if cell == MaskCell::Pivot {
                pivot = (col as i8, row as i8);
            }
            row = row + 1;
            assert(cells_upto(m, col as nat) + column_cells(m, col as int, row as nat) =~=
                cells_upto(m, col as nat) + column_cells(m, col as int, (row - 1) as nat) + if m[row - 1][col as int] != MaskCell::Empty {
                    seq![(col as int, row - 1)]
                } else {
                    seq![]
                });
        }
        col = col + 1;
        assert(cells_upto(m, col as nat) == cells_upto(m, (col - 1) as nat) + column_cells(m, col - 1, m.len()));
    }
    proof {
        if has_pivot(m) {
            lemma_pivot_found(m);
        }
        assert forall|r: int, c: int| #[trigger] only_pivot_at(m, r, c) implies pivot.0 == c && pivot.1 == r by {
            assert(has_pivot(m));
            lemma_pivot_found(m);
        }
    }
    (coords, pivot)
}

/// A quarter turn of a rectangular mask is rectangular, with rows and columns swapped.
pub proof fn lemma_rot90_rect<T>(m: Seq<Seq<T>>)
    requires
        is_rect(m),
        width(m) > 0,
    ensures
        is_rect(rot90(m)),
        rot90(m).len() == width(m),
        width(rot90(m)) == m.len(),
{
}

/// Two quarter turns of a rectangular mask make a half turn.
pub proof fn lemma_rot90_twice<T>(m: Seq<Seq<T>>)
    requires
        is_rect(m),
        width(m) > 0,
    ensures
        rot90(rot90(m)) == rot180(m),
{
    lemma_rot90_rect(m);
    assert forall|i: int| 0 <= i < m.len() implies #[trigger] rot90(rot90(m))[i] =~= rot180(m)[i] by {
        assert(m[m.len() - 1 - i].len() == m[0].len());
    }
    assert(rot90(rot90(m)) =~= rot180(m));
}

/// Two half turns of a rectangular mask give the mask back.
pub proof fn lemma_rot180_twice<T>(m: Seq<Seq<T>>)
    requires
        is_rect(m),
    ensures
        rot180(rot180(m)) == m,
{
    assert forall|i: int| 0 <= i < m.len() implies #[trigger] rot180(rot180(m))[i] =~= m[i] by {
        assert(m[m.len() - 1 - i].len() == m[0].len());
        assert(m[i].len() == m[0].len());
    }
    assert(rot180(rot180(m)) =~= m);
}

/// Rotation is cyclic of order four: four quarter turns of a rectangular mask
/// give back the mask cell for cell, and three quarter turns are a half turn
/// after a quarter turn.
pub proof fn lemma_rotation_cycle<T>(m: Seq<Seq<T>>)
    requires
        is_rect(m),
        width(m) > 0,
    ensures
        rot90(rot90(rot90(rot90(m)))) == m,
        rot90(rot90(rot90(m))) == rot180(rot90(m)),
{
    lemma_rot90_rect(m);
    let q = rot90(m);
    lemma_rot90_rect(q);
    lemma_rot90_twice(m);
    lemma_rot90_twice(q);
    lemma_rot90_twice(rot90(q));
    lemma_rot90_rect(rot90(q));
    assert(is_rect(rot180(m)));
    assert(rot90(rot90(rot90(rot90(m)))) == rot180(rot180(m)));
    lemma_rot180_twice(m);
}

/// Every cell found by the scan lies inside the mask.
pub proof fn lemma_solid_cells_inside(m: Seq<Seq<MaskCell>>, k: nat)
    requires
        is_rect(m),
        k <= width(m),
    ensures
        forall|i: int| 0 <= i < cells_upto(m, k).len() ==> {
            let p = #[trigger] cells_upto(m, k)[i];
            0 <= p.0 < k && 0 <= p.1 < m.len()
        },
    decreases k,
{
    if k > 0 {
        lemma_solid_cells_inside(m, (k - 1) as nat);
        lemma_column_cells_inside(m, k - 1, m.len());
        let a = cells_upto(m, (k - 1) as nat);
        let b = column_cells(m, k - 1, m.len());
        assert forall|i: int| 0 <= i < cells_upto(m, k).len() implies {
            let p = #[trigger] cells_upto(m, k)[i];
            0 <= p.0 < k && 0 <= p.1 < m.len()
        } by {
            if i >= a.len() {
                assert(cells_upto(m, k)[i] == b[i - a.len()]);
            }
        }
    }
}

/// The cells of column `c` found among its first `n` rows lie in that column, above row `n`.
pub proof fn lemma_column_cells_inside(m: Seq<Seq<MaskCell>>, c: int, n: nat)
    ensures
        forall|i: int| 0 <= i < column_cells(m, c, n).len() ==> {
            let p = #[trigger] column_cells(m, c, n)[i];
            p.0 == c && 0 <= p.1 < n
        },
    decreases n,
{
    if n > 0 {
        lemma_column_cells_inside(m, c, (n - 1) as nat);
        let a = column_cells(m, c, (n - 1) as nat);
        assert forall|i: int| 0 <= i < column_cells(m, c, n).len() implies {
            let p = #[trigger] column_cells(m, c, n)[i];
            p.0 == c && 0 <= p.1 < n
        } by {
            if i < a.len() {
                assert(column_cells(m, c, n)[i] == a[i]);
            }
        }
    }
}

/// Why a shape mask is refused.
#[derive(Clone, Copy, Debug, PartialEq, Eq, Structural)]
pub enum ShapeError {
    /// A character other than `X` (solid), `O` (pivot) or `_` (empty).
    InvalidChar(char),
    /// The mask has no rows.
    NoRows,
    /// The rows differ in length; the length of the longest is given.
    RaggedRows(usize),
    /// No cell is marked as the pivot.
    NoPivot,
    /// More than one cell is marked as the pivot.
    ManyPivots,
    /// The mask has more than 127 rows or columns.
    TooLarge,
}

/// The mask cell that a character stands for.
pub open spec fn cell_of_char(c: char) -> Option<MaskCell> {
    if c == 'X' {
        Some(MaskCell::Solid)
    } else if c == 'O' {
        Some(MaskCell::Pivot)
    } else if c == '_' {
        Some(MaskCell::Empty)
    } else {
        None
    }
}

/// Every character of every row stands for a mask cell.
pub open spec fn chars_valid(text: Seq<Seq<char>>) -> bool {
    forall|i: int, j: int| 0 <= i < text.len() && 0 <= j < text[i].len() ==> (#[trigger] cell_of_char(text[i][j])) is Some
}

/// `c` is the first character, in row order, that stands for no mask cell.
pub open spec fn first_invalid_char(text: Seq<Seq<char>>, c: char) -> bool {
    exists|i: int, j: int|
        0 <= i < text.len() && 0 <= j < text[i].len() && #[trigger] text[i][j] == c
            && cell_of_char(c) is None && forall|a: int, b: int|
            0 <= a < text.len() && 0 <= b < text[a].len() && (a < i || (a == i && b < j))
                ==> (#[trigger] cell_of_char(text[a][b])) is Some
}

/// The mask that rows of characters stand for (an invalid character reads as `Empty`).
pub open spec fn mask_of_text(text: Seq<Seq<char>>) -> Seq<Seq<MaskCell>> {
    Seq::new(text.len(), |i: int| Seq::new(text[i].len(), |j: int| match cell_of_char(text[i][j]) {
        Some(m) => m,
        None => MaskCell::Empty,
    }))
}

/// The text of a list of strings, row by row.
pub open spec fn text_of(rows: &Vec<String>) -> Seq<Seq<char>> {
    Seq::new(rows@.len(), |i: int| rows@[i]@)
}

/// Number of pivot cells in a row.
pub open spec fn row_pivots(r: Seq<MaskCell>) -> nat
    decreases r.len(),
{
    if r.len() == 0 {
        0
    } else {
        row_pivots(r.drop_last()) + if r.last() == MaskCell::Pivot {
            1nat
        } else {
            0nat
        }
    }
}

/// Number of pivot cells in a mask.
pub open spec fn pivot_total(m: Seq<Seq<MaskCell>>) -> nat
    decreases m.len(),
{
    if m.len() == 0 {
        0
    } else {
        pivot_total(m.drop_last()) + row_pivots(m.last())
    }
}

/// Length of the longest row of a mask (zero for no rows).
pub open spec fn max_len(m: Seq<Seq<MaskCell>>) -> nat
    decreases m.len(),
{
    if m.len() == 0 {
        0
    } else if max_len(m.drop_last()) >= m.last().len() {
        max_len(m.drop_last())
    } else {
        m.last().len()
    }
}

/// Outcome of checking a mask: rows present, all of one length, exactly one pivot.
pub open spec fn mask_check(m: Seq<Seq<MaskCell>>) -> Result<(), ShapeError> {
    if m.len() == 0 {
        Err(ShapeError::NoRows)
    } else if !is_rect(m) {
        Err(ShapeError::RaggedRows(max_len(m) as usize))
    } else if pivot_total(m) == 0 {
        Err(ShapeError::NoPivot)
    } else if pivot_total(m) > 1 {
        Err(ShapeError::ManyPivots)
    } else {
        Ok(())
    }
}

spec fn capped(n: nat) -> nat {
    if n > 2 {
        2
    } else {
        n
    }
}

fn longest_row(m: &Vec<Vec<MaskCell>>) -> (n: usize)
    ensures
        n == max_len(rows_of(m)),
{
    let ghost s = rows_of(m);
    let mut n: usize = 0;
    let mut i: usize = 0;
    while i < m.len()
        invariant
            s == rows_of(m),
            i <= s.len(),
            n == max_len(s.subrange(0, i as int)),
        decreases m.len() - i,
    {
        assert(s.subrange(0, i + 1).drop_last() == s.subrange(0, i as int));
        if m[i].len() > n {
            n = m[i].len();
        }
        i = i + 1;
    }
    assert(s.subrange(0, i as int) == s);
    n
}

/// Checks that a mask has rows, all of the same length, and exactly one pivot.
pub fn check_mask(m: &Vec<Vec<MaskCell>>) -> (r: Result<(), ShapeError>)
    ensures
        r == mask_check(rows_of(m)),
{
    let ghost s = rows_of(m);
    if m.len() == 0 {
        return Err(ShapeError::NoRows);
    }
    let expected = m[0].len();
    let mut i: usize = 0;
    while i < m.len()
        invariant
            s == rows_of(m),
            s.len() > 0,
            expected == s[0].len(),
            i <= s.len(),
            forall|k: int| 0 <= k < i ==> #[trigger] s[k].len() == expected,
        decreases m.len() - i,
    {
        if m[i].len() != expected {
            assert(s[i as int].len() != s[0].len());
            return Err(ShapeError::RaggedRows(longest_row(m)));
        }
        i = i + 1;
    }
    let mut count: usize = 0;
    i = 0;
    while i < m.len()
        invariant
            s == rows_of(m),
            is_rect(s),
            i <= s.len(),
            count == capped(pivot_total(s.subrange(0, i as int))),
        decreases m.len() - i,
    {
        let row = &m[i];
        let mut j: usize = 0;
        while j < row.len()
            invariant
                s == rows_of(m),
                is_rect(s),
                i < s.len(),
                row@ == s[i as int],
                j <= row@.len(),
                count == capped(pivot_total(s.subrange(0, i as int)) + row_pivots(row@.subrange(0, j as int))),
            decreases row.len() - j,
        {
            assert(row@.subrange(0, j + 1).drop_last() == row@.subrange(0, j as int));
            if row[j] == MaskCell::Pivot && count < 2 {
                count = count + 1;
            }
            j = j + 1;
        }
        assert(row@.subrange(0, j as int) == row@);
        assert(s.subrange(0, i + 1).drop_last() == s.subrange(0, i as int));
        i = i + 1;
    }
    assert(s.subrange(0, i as int) == s);
    if count == 0 {
        Err(ShapeError::NoPivot)
    } else if count > 1 {
        Err(ShapeError::ManyPivots)
    } else {
        Ok(())
    }
}

fn cell_from_char(c: char) -> (r: Option<MaskCell>)
    ensures
        r == cell_of_char(c),
{
    if c == 'X' {
        Some(MaskCell::Solid)
    } else if c == 'O' {
        Some(MaskCell::Pivot)
    } else if c == '_' {
        Some(MaskCell::Empty)
    } else {
        None
    }
}

/// Reads a mask from rows of `X` (solid), `O` (pivot) and `_` (empty), and
/// checks it: rows present, all of one length, exactly one pivot.
pub fn parse_mask(rows: &Vec<String>) -> (r: Result<Vec<Vec<MaskCell>>, ShapeError>)
    ensures
        !chars_valid(text_of(rows)) ==> r matches Err(ShapeError::InvalidChar(_)),
        r matches Err(ShapeError::InvalidChar(c)) ==> first_invalid_char(text_of(rows), c),
        chars_valid(text_of(rows)) ==> match r {
            Ok(m) => mask_check(mask_of_text(text_of(rows))) is Ok && rows_of(&m) == mask_of_text(text_of(rows)),
            Err(e) => mask_check(mask_of_text(text_of(rows))) == Err::<(), ShapeError>(e),
        },
{
    let ghost text = text_of(rows);
    let mut mask: Vec<Vec<MaskCell>> = Vec::new();
    let mut i: usize = 0;
    while i < rows.len()
        invariant
            text == text_of(rows),
            i <= rows@.len(),
            mask@.len() == i,
            forall|a: int, b: int| 0 <= a < i && 0 <= b < text[a].len() ==> (#[trigger] cell_of_char(text[a][b])) is Some,
            forall|k: int| 0 <= k < i ==> #[trigger] mask@[k]@ == mask_of_text(text)[k],
        decreases rows.len() - i,
    {
        let row = rows[i].as_str();
        let n = row.unicode_len();
        let mut line: Vec<MaskCell> = Vec::new();
        let mut j: usize = 0;
        while j < n
            invariant
                text == text_of(rows),
                i < rows@.len(),
                row@ == text[i as int],
                n == row@.len(),
                j <= n,
                line@.len() == j,
                forall|a: int, b: int| 0 <= a < i && 0 <= b < text[a].len() ==> (#[trigger] cell_of_char(text[a][b])) is Some,
                forall|b: int| 0 <= b < j ==> (#[trigger] cell_of_char(text[i as int][b])) is Some,
                forall|b: int| 0 <= b < j ==> #[trigger] line@[b] == mask_of_text(text)[i as int][b],
            decreases n - j,
        {
            let c = row.get_char(j);
            match cell_from_char(c) {
                Some(cell) => line.push(cell),
                None => {
                    assert(text[i as int][j as int] == c);
                    assert forall|a: int, b: int|
                        0 <= a < text.len() && 0 <= b < text[a].len() && (a < i || (a == i && b < j)) implies (#[trigger] cell_of_char(text[a][b])) is Some by {
                        if a == i {
                            assert(cell_of_char(text[i as int][b]) is Some);
                        }
                    }
                    assert(first_invalid_char(text, c));
                    return Err(ShapeError::InvalidChar(c));
                },
            }
            j = j + 1;
        }
        assert(line@ =~= mask_of_text(text)[i as int]);
        mask.push(line);
        i = i + 1;
    }
    assert(rows_of(&mask) =~= mask_of_text(text));
    match check_mask(&mask) {
        Ok(()) => Ok(mask),
        Err(e) => Err(e),
    }
}

/// A mask whose rows are all empty has no pivot.
pub proof fn lemma_no_columns_no_pivot(m: Seq<Seq<MaskCell>>)
    requires
        forall|i: int| 0 <= i < m.len() ==> #[trigger] m[i].len() == 0,
    ensures
        pivot_total(m) == 0,
    decreases m.len(),
{
    if m.len() > 0 {
        assert(m.last().len() == 0);
        lemma_no_columns_no_pivot(m.drop_last());
    }
}

} // verus!
