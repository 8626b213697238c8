use vstd::prelude::*;
use crate::shape::{
    MaskCell, Rotation, is_rect, width, rows_of, rotated, pairs_of, solid_cells, pivot_of,
    lemma_rotated_rect, mask_to_coords, rot_piece_90, rot_piece_180, ShapeError, parse_mask,
    text_of, mask_of_text, mask_check, chars_valid, lemma_no_columns_no_pivot, has_pivot,
    lemma_rotated_has_pivot, only_pivot_at, lemma_pivot_total_at,
};

verus! {

/// The polyomino pieces of the game, one to five cells each.
#[derive(Clone, Copy, Debug, PartialEq, Eq, Structural)]
pub enum Piece {
    One,
    Two,
    ThreeL,
    ThreeI,
    FourI,
    FourL,
    FourStairs,
    FourSquare,
    FourT,
    FiveF,
    FiveI,
    FiveL,
    FiveN,
    FiveP,
    FiveT,
    FiveU,
    FiveV,
    FiveW,
    FiveX,
    FiveY,
    FiveZ,
}

/// Placement geometry of a piece in one rotation: the `(x, y)` position of
/// each of its cells within its turned shape mask, counted from the mask's
/// top-left corner, and that of its pivot. To put the pivot on board cell
/// `(px, py)`, place the mask's corner at `(px - pivot.0, py - pivot.1)`.
#[derive(Debug)]
pub struct PieceOffsets {
    pub offsets: Vec<(i8, i8)>,
    pub pivot: (i8, i8),
}

impl Piece {
    /// The piece's shape mask turned by `rot`.
    pub open spec fn oriented(self, rot: Rotation) -> Seq<Seq<MaskCell>> {
        rotated(self.shape_spec(), rot)
    }

    /// The cells of the piece turned by `rot`, scanned column by column, and its pivot.
    pub fn offsets(&self, rot: Rotation) -> (r: PieceOffsets)
        ensures
            pairs_of(r.offsets@) == solid_cells(self.oriented(rot)),
            (r.pivot.0 as int, r.pivot.1 as int) == pivot_of(self.oriented(rot)),
            r.offsets@.len() == self.cell_count(),
            self.oriented(rot)[r.pivot.1 as int][r.pivot.0 as int] == MaskCell::Pivot,
            pairs_of(r.offsets@).contains((r.pivot.0 as int, r.pivot.1 as int)),
    {
        let mask = self.shape();
        proof {
            lemma_catalog_valid(*self);
            lemma_rotated_has_pivot(self.shape_spec(), rot);
            lemma_cell_count(*self, rot);
            lemma_shape_rect(*self);
            lemma_rotated_rect(self.shape_spec(), rot);
        }
        let turned = match rot {
            Rotation::Zero => mask,
            Rotation::Ninety => rot_piece_90(&mask),
            Rotation::OneEighty => rot_piece_180(&mask),
            Rotation::TwoSeventy => {
                proof {
                    crate::shape::lemma_rot90_rect(self.shape_spec());
                }
                rot_piece_180(&rot_piece_90(&mask))
            },
        };
        let (offsets, pivot) = mask_to_coords(&turned);
        PieceOffsets { offsets, pivot }
    }

    /// The piece's shape mask at rotation zero, row by row from the top.
    pub open spec fn shape_spec(self) -> Seq<Seq<MaskCell>> {
        match self {
            Piece::One => seq![seq![MaskCell::Pivot]],
            Piece::Two => seq![seq![MaskCell::Pivot, MaskCell::Solid]],
            Piece::ThreeL => seq![seq![MaskCell::Pivot, MaskCell::Solid], seq![MaskCell::Solid, MaskCell::Empty]],
            Piece::ThreeI => seq![seq![MaskCell::Solid, MaskCell::Pivot, MaskCell::Solid]],
            Piece::FourI => seq![seq![MaskCell::Solid, MaskCell::Pivot, MaskCell::Solid, MaskCell::Solid]],
            Piece::FourL => seq![seq![MaskCell::Pivot, MaskCell::Solid, MaskCell::Solid], seq![MaskCell::Solid, MaskCell::Empty, MaskCell::Empty]],
            Piece::FourStairs => seq![seq![MaskCell::Solid, MaskCell::Pivot, MaskCell::Empty], seq![MaskCell::Empty, MaskCell::Solid, MaskCell::Solid]],
            Piece::FourSquare => seq![seq![MaskCell::Pivot, MaskCell::Solid], seq![MaskCell::Solid, MaskCell::Solid]],
            Piece::FourT => seq![seq![MaskCell::Solid, MaskCell::Pivot, MaskCell::Solid], seq![MaskCell::Empty, MaskCell::Solid, MaskCell::Empty]],
            Piece::FiveF => seq![seq![MaskCell::Solid, MaskCell::Empty, MaskCell::Empty], seq![MaskCell::Solid, MaskCell::Pivot, MaskCell::Solid], seq![MaskCell::Empty, MaskCell::Solid, MaskCell::Empty]],
            Piece::FiveI => seq![seq![MaskCell::Solid, MaskCell::Solid, MaskCell::Pivot, MaskCell::Solid, MaskCell::Solid]],
            Piece::FiveL => seq![seq![MaskCell::Pivot, MaskCell::Solid, MaskCell::Solid, MaskCell::Solid], seq![MaskCell::Solid, MaskCell::Empty, MaskCell::Empty, MaskCell::Empty]],
            Piece::FiveN => seq![seq![MaskCell::Solid, MaskCell::Solid, MaskCell::Pivot, MaskCell::Empty], seq![MaskCell::Empty, MaskCell::Empty, MaskCell::Solid, MaskCell::Solid]],
            Piece::FiveP => seq![seq![MaskCell::Solid, MaskCell::Pivot, MaskCell::Solid], seq![MaskCell::Empty, MaskCell::Solid, MaskCell::Solid]],
            Piece::FiveT => seq![seq![MaskCell::Solid, MaskCell::Solid, MaskCell::Solid], seq![MaskCell::Empty, MaskCell::Pivot, MaskCell::Empty], seq![MaskCell::Empty, MaskCell::Solid, MaskCell::Empty]],
            Piece::FiveU => seq![seq![MaskCell::Solid, MaskCell::Pivot, MaskCell::Solid], seq![MaskCell::Solid, MaskCell::Empty, MaskCell::Solid]],
            Piece::FiveV => seq![seq![MaskCell::Pivot, MaskCell::Solid, MaskCell::Solid], seq![MaskCell::Solid, MaskCell::Empty, MaskCell::Empty], seq![MaskCell::Solid, MaskCell::Empty, MaskCell::Empty]],
            Piece::FiveW => seq![seq![MaskCell::Solid, MaskCell::Solid, MaskCell::Empty], seq![MaskCell::Empty, MaskCell::Pivot, MaskCell::Solid], seq![MaskCell::Empty, MaskCell::Empty, MaskCell::Solid]],
            Piece::FiveX => seq![seq![MaskCell::Empty, MaskCell::Solid, MaskCell::Empty], seq![MaskCell::Solid, MaskCell::Pivot, MaskCell::Solid], seq![MaskCell::Empty, MaskCell::Solid, MaskCell::Empty]],
            Piece::FiveY => seq![seq![MaskCell::Empty, MaskCell::Solid], seq![MaskCell::Solid, MaskCell::Pivot], seq![MaskCell::Empty, MaskCell::Solid], seq![MaskCell::Empty, MaskCell::Solid]],
            Piece::FiveZ => seq![seq![MaskCell::Solid, MaskCell::Solid, MaskCell::Empty], seq![MaskCell::Empty, MaskCell::Pivot, MaskCell::Empty], seq![MaskCell::Empty, MaskCell::Solid, MaskCell::Solid]],
        }
    }

    /// Row and column of the pivot in the piece's shape mask.
    pub open spec fn pivot_spec(self) -> (int, int) {
        match self {
            Piece::One => (0, 0),
            Piece::Two => (0, 0),
            Piece::ThreeL => (0, 0),
            Piece::ThreeI => (0, 1),
            Piece::FourI => (0, 1),
            Piece::FourL => (0, 0),
            Piece::FourStairs => (0, 1),
            Piece::FourSquare => (0, 0),
            Piece::FourT => (0, 1),
            Piece::FiveF => (1, 1),
            Piece::FiveI => (0, 2),
            Piece::FiveL => (0, 0),
            Piece::FiveN => (0, 2),
            Piece::FiveP => (0, 1),
            Piece::FiveT => (1, 1),
            Piece::FiveU => (0, 1),
            Piece::FiveV => (0, 0),
            Piece::FiveW => (1, 1),
            Piece::FiveX => (1, 1),
            Piece::FiveY => (1, 1),
            Piece::FiveZ => (1, 1),
        }
    }

    /// The number of cells that make up the piece.
    pub open spec fn cell_count(self) -> nat {
        match self {
            Piece::One => 1,
            Piece::Two => 2,
            Piece::ThreeL => 3,
            Piece::ThreeI => 3,
            Piece::FourI => 4,
            Piece::FourL => 4,
            Piece::FourStairs => 4,
            Piece::FourSquare => 4,
            Piece::FourT => 4,
            Piece::FiveF => 5,
            Piece::FiveI => 5,
            Piece::FiveL => 5,
            Piece::FiveN => 5,
            Piece::FiveP => 5,
            Piece::FiveT => 5,
            Piece::FiveU => 5,
            Piece::FiveV => 5,
            Piece::FiveW => 5,
            Piece::FiveX => 5,
            Piece::FiveY => 5,
            Piece::FiveZ => 5,
        }
    }

    /// The piece's shape mask at rotation zero.
    pub fn shape(&self) -> (m: Vec<Vec<MaskCell>>)
        ensures
            rows_of(&m) == self.shape_spec(),
    {
        let x = MaskCell::Solid;
        let o = MaskCell::Pivot;
        let e = MaskCell::Empty;
        let m = match self {
            Piece::One => vec![vec![o]],
            Piece::Two => vec![vec![o, x]],
            Piece::ThreeL => vec![vec![o, x], vec![x, e]],
            Piece::ThreeI => vec![vec![x, o, x]],
            Piece::FourI => vec![vec![x, o, x, x]],
            Piece::FourL => vec![vec![o, x, x], vec![x, e, e]],
            Piece::FourStairs => vec![vec![x, o, e], vec![e, x, x]],
            Piece::FourSquare => vec![vec![o, x], vec![x, x]],
            Piece::FourT => vec![vec![x, o, x], vec![e, x, e]],
            Piece::FiveF => vec![vec![x, e, e], vec![x, o, x], vec![e, x, e]],
            Piece::FiveI => vec![vec![x, x, o, x, x]],
            Piece::FiveL => vec![vec![o, x, x, x], vec![x, e, e, e]],
            Piece::FiveN => vec![vec![x, x, o, e], vec![e, e, x, x]],
            Piece::FiveP => vec![vec![x, o, x], vec![e, x, x]],
            Piece::FiveT => vec![vec![x, x, x], vec![e, o, e], vec![e, x, e]],
            Piece::FiveU => vec![vec![x, o, x], vec![x, e, x]],
            Piece::FiveV => vec![vec![o, x, x], vec![x, e, e], vec![x, e, e]],
            Piece::FiveW => vec![vec![x, x, e], vec![e, o, x], vec![e, e, x]],
            Piece::FiveX => vec![vec![e, x, e], vec![x, o, x], vec![e, x, e]],
            Piece::FiveY => vec![vec![e, x], vec![x, o], vec![e, x], vec![e, x]],
            Piece::FiveZ => vec![vec![x, x, e], vec![e, o, e], vec![e, x, x]],
        };
        assert(rows_of(&m) =~~= self.shape_spec());
        m
    }
}

/// Every shape of the catalog is a rectangle of at most five rows and five columns.
pub proof fn lemma_shape_rect(p: Piece)
    ensures
        is_rect(p.shape_spec()),
        0 < width(p.shape_spec()) <= 5,
        p.shape_spec().len() <= 5,
{
}

/// Every shape of the catalog passes the mask check: it has rows, all of one
/// length, and exactly one pivot, at `pivot_spec`.
pub proof fn lemma_catalog_valid(p: Piece)
    ensures
        mask_check(p.shape_spec()) is Ok,
        has_pivot(p.shape_spec()),
        only_pivot_at(p.shape_spec(), p.pivot_spec().0, p.pivot_spec().1),
{
    let m = p.shape_spec();
    let (r, c) = p.pivot_spec();
    lemma_shape_rect(p);
    assert(only_pivot_at(m, r, c));
    lemma_pivot_total_at(m, r, c);
    assert(m[r][c] == MaskCell::Pivot);
}

/// Side of the square in which a piece's cells are drawn.
pub const SKETCH_DIM: usize = 5;

/// Drawing of the first `k` cells of a `SKETCH_DIM` square, row by row:
/// `X` where `cells` has a cell, `-` elsewhere, a line break before every new row.
pub open spec fn sketch_upto(cells: Seq<(int, int)>, k: nat) -> Seq<char>
    decreases k,
{
    if k == 0 {
        seq![]
    } else {
        let i = k - 1;
        let d = SKETCH_DIM as int;
        sketch_upto(cells, (k - 1) as nat) + (if i > 0 && i % d == 0 {
            seq!['\n']
        } else {
            seq![]
        }) + (if cells.contains((i % d, i / d)) {
            seq!['X']
        } else {
            seq!['-']
        })
    }
}

fn contains_cell(v: &Vec<(i8, i8)>, x: i8, y: i8) -> (r: bool)
    ensures
        r == pairs_of(v@).contains((x as int, y as int)),
{
    let mut i: usize = 0;
    while i < v.len()
        invariant
            i <= v@.len(),
            forall|k: int| 0 <= k < i ==> #[trigger] pairs_of(v@)[k] != (x as int, y as int),
        decreases v.len() - i,
    {
        let (a, b) = v[i];
        if a == x && b == y {
            assert(pairs_of(v@)[i as int] == (x as int, y as int));
            return true;
        }
        i = i + 1;
    }
    false
}

impl PieceOffsets {
    /// The cells drawn in a five by five square: `X` for a cell of the piece,
    /// `-` elsewhere, one line per row.
    pub fn repr(&self) -> (s: String)
        ensures
            s@ == sketch_upto(pairs_of(self.offsets@), (SKETCH_DIM * SKETCH_DIM) as nat),
    {
        let mut s = String::new();
        let mut k: usize = 0;
        while k < SKETCH_DIM * SKETCH_DIM
            invariant
                k <= SKETCH_DIM * SKETCH_DIM,
                s@ == sketch_upto(pairs_of(self.offsets@), k as nat),
            decreases SKETCH_DIM * SKETCH_DIM - k,
        {
            if k > 0 && k % SKETCH_DIM == 0 {
                proof {
                    reveal_strlit("\n");
                }
                s.append("\n");
            }
            let x = (k % SKETCH_DIM) as i8;
            let y = (k / SKETCH_DIM) as i8;
            proof {
                reveal_strlit("X");
                reveal_strlit("-");
            }
            if contains_cell(&self.offsets, x, y) {
                s.append("X");
            } else {
                s.append("-");
            }
            k = k + 1;
        }
        s
    }
}

/// Reads a shape mask from rows of `X` (solid), `O` (pivot) and `_` (empty),
/// checks it, turns it by `rot` and scans it: the placement geometry of a
/// piece given by its drawing.
pub fn shape_offsets(rows: &Vec<String>, rot: Rotation) -> (r: Result<PieceOffsets, ShapeError>)
    ensures
        !chars_valid(text_of(rows)) ==> r matches Err(ShapeError::InvalidChar(_)),
        chars_valid(text_of(rows)) ==> ({
            let m = mask_of_text(text_of(rows));
            match mask_check(m) {
                Err(e) => r == Err::<PieceOffsets, ShapeError>(e),
                Ok(_) => if m.len() > 127 || width(m) > 127 {
                    r matches Err(ShapeError::TooLarge)
                } else {
                    r matches Ok(o) && pairs_of(o.offsets@) == solid_cells(rotated(m, rot))
                        && (o.pivot.0 as int, o.pivot.1 as int) == pivot_of(rotated(m, rot))
                },
            }
        }),
{
    let mask = match parse_mask(rows) {
        Ok(m) => m,
        Err(e) => {
            return Err(e);
        },
    };
    let ghost m = rows_of(&mask);
    if mask.len() > 127 || mask[0].len() > 127 {
        return Err(ShapeError::TooLarge);
    }
    proof {
        if width(m) == 0 {
            lemma_no_columns_no_pivot(m);
        }
        lemma_rotated_rect(m, rot);
        crate::shape::lemma_rot90_rect(m);
    }
    let turned = match rot {
        Rotation::Zero => mask,
        Rotation::Ninety => rot_piece_90(&mask),
        Rotation::OneEighty => rot_piece_180(&mask),
        Rotation::TwoSeventy => rot_piece_180(&rot_piece_90(&mask)),
    };
    let (offsets, pivot) = mask_to_coords(&turned);
    Ok(PieceOffsets { offsets, pivot })
}

/// Number of distinct pieces.
pub const PIECE_COUNT: usize = 21;

impl Piece {
    /// Position of the piece in the catalog order.
    pub open spec fn index_spec(self) -> nat {
        match self {
            Piece::One => 0,
            Piece::Two => 1,
            Piece::ThreeL => 2,
            Piece::ThreeI => 3,
            Piece::FourI => 4,
            Piece::FourL => 5,
            Piece::FourStairs => 6,
            Piece::FourSquare => 7,
            Piece::FourT => 8,
            Piece::FiveF => 9,
            Piece::FiveI => 10,
            Piece::FiveL => 11,
            Piece::FiveN => 12,
            Piece::FiveP => 13,
            Piece::FiveT => 14,
            Piece::FiveU => 15,
            Piece::FiveV => 16,
            Piece::FiveW => 17,
            Piece::FiveX => 18,
            Piece::FiveY => 19,
            Piece::FiveZ => 20,
        }
    }

    /// Position of the piece in the catalog order.
    pub fn index(self) -> (i: usize)
        ensures
            i == self.index_spec(),
            i < PIECE_COUNT,
    {
        match self {
            Piece::One => 0,
            Piece::Two => 1,
            Piece::ThreeL => 2,
            Piece::ThreeI => 3,
            Piece::FourI => 4,
            Piece::FourL => 5,
            Piece::FourStairs => 6,
            Piece::FourSquare => 7,
            Piece::FourT => 8,
            Piece::FiveF => 9,
            Piece::FiveI => 10,
            Piece::FiveL => 11,
            Piece::FiveN => 12,
            Piece::FiveP => 13,
            Piece::FiveT => 14,
            Piece::FiveU => 15,
            Piece::FiveV => 16,
            Piece::FiveW => 17,
            Piece::FiveX => 18,
            Piece::FiveY => 19,
            Piece::FiveZ => 20,
        }
    }

    /// The piece at position `i` of the catalog order.
    pub fn from_index(i: usize) -> (p: Piece)
        requires
            i < PIECE_COUNT,
        ensures
            p.index_spec() == i,
    {
        match i {
            0 => Piece::One,
            1 => Piece::Two,
            2 => Piece::ThreeL,
            3 => Piece::ThreeI,
            4 => Piece::FourI,
            5 => Piece::FourL,
            6 => Piece::FourStairs,
            7 => Piece::FourSquare,
            8 => Piece::FourT,
            9 => Piece::FiveF,
            10 => Piece::FiveI,
            11 => Piece::FiveL,
            12 => Piece::FiveN,
            13 => Piece::FiveP,
            14 => Piece::FiveT,
            15 => Piece::FiveU,
            16 => Piece::FiveV,
            17 => Piece::FiveW,
            18 => Piece::FiveX,
            19 => Piece::FiveY,
            _ => Piece::FiveZ,
        }
    }

    /// The piece after this one in catalog order, wrapping around after the last.
    pub fn next(self) -> (p: Piece)
        ensures
            p.index_spec() == (self.index_spec() as int + 1) % (PIECE_COUNT as int),
    {
        Piece::from_index((self.index() + 1) % PIECE_COUNT)
    }

    /// The piece before this one in catalog order, wrapping around before the first.
    pub fn prev(self) -> (p: Piece)
        ensures
            p.index_spec() == (self.index_spec() as int + PIECE_COUNT as int - 1) % (PIECE_COUNT as int),
    {
        Piece::from_index((self.index() + PIECE_COUNT - 1) % PIECE_COUNT)
    }

    /// Every piece, in catalog order.
    pub fn all() -> (v: Vec<Piece>)
        ensures
            v@.len() == PIECE_COUNT,
            forall|i: int| 0 <= i < PIECE_COUNT ==> (#[trigger] v@[i]).index_spec() == i,
    {
        let mut v: Vec<Piece> = Vec::new();
        let mut i: usize = 0;
        while i < PIECE_COUNT
            invariant
                i <= PIECE_COUNT,
                v@.len() == i,
                forall|k: int| 0 <= k < i ==> (#[trigger] v@[k]).index_spec() == k,
            decreases PIECE_COUNT - i,
        {
            v.push(Piece::from_index(i));
            i = i + 1;
        }
        v
    }
}

/// Each catalog shape has `cell_count` cells that are not `Empty`.
proof fn lemma_shape_count(p: Piece)
    ensures
        solid_cells(p.shape_spec()).len() == p.cell_count(),
{
    reveal_with_fuel(crate::shape::cells_upto, 6);
    reveal_with_fuel(crate::shape::column_cells, 5);
    match p {
        Piece::One => assert(solid_cells(Piece::One.shape_spec()).len() == Piece::One.cell_count()) by {},
        Piece::Two => assert(solid_cells(Piece::Two.shape_spec()).len() == Piece::Two.cell_count()) by {},
        Piece::ThreeL => assert(solid_cells(Piece::ThreeL.shape_spec()).len() == Piece::ThreeL.cell_count()) by {},
        Piece::ThreeI => assert(solid_cells(Piece::ThreeI.shape_spec()).len() == Piece::ThreeI.cell_count()) by {},
        Piece::FourI => assert(solid_cells(Piece::FourI.shape_spec()).len() == Piece::FourI.cell_count()) by {},
        Piece::FourL => assert(solid_cells(Piece::FourL.shape_spec()).len() == Piece::FourL.cell_count()) by {},
        Piece::FourStairs => assert(solid_cells(Piece::FourStairs.shape_spec()).len() == Piece::FourStairs.cell_count()) by {},
        Piece::FourSquare => assert(solid_cells(Piece::FourSquare.shape_spec()).len() == Piece::FourSquare.cell_count()) by {},
        Piece::FourT => assert(solid_cells(Piece::FourT.shape_spec()).len() == Piece::FourT.cell_count()) by {},
        Piece::FiveF => assert(solid_cells(Piece::FiveF.shape_spec()).len() == Piece::FiveF.cell_count()) by {},
        Piece::FiveI => assert(solid_cells(Piece::FiveI.shape_spec()).len() == Piece::FiveI.cell_count()) by {},
        Piece::FiveL => assert(solid_cells(Piece::FiveL.shape_spec()).len() == Piece::FiveL.cell_count()) by {},
        Piece::FiveN => assert(solid_cells(Piece::FiveN.shape_spec()).len() == Piece::FiveN.cell_count()) by {},
        Piece::FiveP => assert(solid_cells(Piece::FiveP.shape_spec()).len() == Piece::FiveP.cell_count()) by {},
        Piece::FiveT => assert(solid_cells(Piece::FiveT.shape_spec()).len() == Piece::FiveT.cell_count()) by {},
        Piece::FiveU => assert(solid_cells(Piece::FiveU.shape_spec()).len() == Piece::FiveU.cell_count()) by {},
        Piece::FiveV => assert(solid_cells(Piece::FiveV.shape_spec()).len() == Piece::FiveV.cell_count()) by {},
        Piece::FiveW => assert(solid_cells(Piece::FiveW.shape_spec()).len() == Piece::FiveW.cell_count()) by {},
        Piece::FiveX => assert(solid_cells(Piece::FiveX.shape_spec()).len() == Piece::FiveX.cell_count()) by {},
        Piece::FiveY => assert(solid_cells(Piece::FiveY.shape_spec()).len() == Piece::FiveY.cell_count()) by {},
        Piece::FiveZ => assert(solid_cells(Piece::FiveZ.shape_spec()).len() == Piece::FiveZ.cell_count()) by {},
    }
}

/// Every rotation of a piece has as many cells as the piece itself.
pub proof fn lemma_cell_count(p: Piece, rot: Rotation)
    ensures
        solid_cells(p.oriented(rot)).len() == p.cell_count(),
{
    lemma_shape_rect(p);
    lemma_shape_count(p);
    crate::count::lemma_count_rotated(p.shape_spec(), rot);
}

} // verus!
