use vstd::prelude::*;
use crate::grid::{Grid, CellText, DIM, in_bounds, cell_index, text_upto, lemma_index_of_cell};
use crate::piece::{Piece, lemma_shape_rect};
use crate::shape::{
    Rotation, pairs_of, solid_cells, is_rect, width, lemma_rotated_rect, lemma_solid_cells_inside,
};

verus! {

/// What stands on a board cell: nothing, or a piece of one of the four colors.
#[derive(Clone, Copy, Debug, PartialEq, Eq, Structural)]
pub enum Occupancy {
    Empty,
    Green,
    Red,
    Blue,
    Yellow,
}

impl Default for Occupancy {
    fn default() -> (r: Self)
        ensures
            r == Occupancy::Empty,
    {
        Occupancy::Empty
    }
}

/// How a free cell stands for one color's next placement.
#[derive(Clone, Copy, Debug, PartialEq, Eq, Structural)]
pub enum Validity {
    Valid,
    Invalid,
    Anchor,
}

impl Default for Validity {
    fn default() -> (r: Self)
        ensures
            r == Validity::Valid,
    {
        Validity::Valid
    }
}

impl CellText for Occupancy {
    open spec fn text_spec(&self) -> Seq<char> {
        match self {
            Occupancy::Empty => seq!['\u{b7}'],
            Occupancy::Green => seq!['G'],
            Occupancy::Red => seq!['R'],
            Occupancy::Blue => seq!['B'],
            Occupancy::Yellow => seq!['Y'],
        }
    }

    fn cell_text(&self) -> (r: &'static str) {
        proof {
            reveal_strlit("\u{b7}");
            reveal_strlit("G");
            reveal_strlit("R");
            reveal_strlit("B");
            reveal_strlit("Y");
        }
        match self {
            Occupancy::Empty => "\u{b7}",
            Occupancy::Green => "G",
            Occupancy::Red => "R",
            Occupancy::Blue => "B",
            Occupancy::Yellow => "Y",
        }
    }
}

impl Occupancy {
    /// The color that plays after this one: green, red, blue, yellow, then green again.
    pub fn next_color(self) -> (r: Occupancy)
        requires
            self != Occupancy::Empty,
        ensures
            r == match self {
                Occupancy::Empty => Occupancy::Empty,
                Occupancy::Green => Occupancy::Red,
                Occupancy::Red => Occupancy::Blue,
                Occupancy::Blue => Occupancy::Yellow,
                Occupancy::Yellow => Occupancy::Green,
            },
    {
        match self {
            Occupancy::Empty => Occupancy::Empty,
            Occupancy::Green => Occupancy::Red,
            Occupancy::Red => Occupancy::Blue,
            Occupancy::Blue => Occupancy::Yellow,
            Occupancy::Yellow => Occupancy::Green,
        }
    }

    /// The one-character label of the occupancy.
    pub fn to_string(&self) -> (s: String)
        ensures
            s@ == self.text_spec(),
    {
        self.cell_text().to_owned()
    }
}

impl CellText for Validity {
    open spec fn text_spec(&self) -> Seq<char> {
        match self {
            Validity::Valid => seq!['-'],
            Validity::Invalid => seq!['X'],
            Validity::Anchor => seq!['O'],
        }
    }

    fn cell_text(&self) -> (r: &'static str) {
        proof {
            reveal_strlit("-");
            reveal_strlit("X");
            reveal_strlit("O");
        }
        match self {
            Validity::Valid => "-",
            Validity::Invalid => "X",
            Validity::Anchor => "O",
        }
    }
}

/// The game board: the occupancy of every cell.
#[derive(Clone, Debug, PartialEq, Eq)]
pub struct Board {
    pub occupancies: Grid<Occupancy>,
}

/// Color `c` stands on cell `(x, y)` of `g`.
pub open spec fn holds(g: Grid<Occupancy>, c: Occupancy, x: int, y: int) -> bool {
    in_bounds(x, y) && g.at(x, y) == c
}

/// One of the four cells sharing a side with `(x, y)` holds color `c`.
pub open spec fn touches_side(g: Grid<Occupancy>, c: Occupancy, x: int, y: int) -> bool {
    holds(g, c, x - 1, y) || holds(g, c, x + 1, y) || holds(g, c, x, y - 1) || holds(g, c, x, y + 1)
}

/// `(x, y)` is one of the four corner cells of the board.
pub open spec fn is_board_corner(x: int, y: int) -> bool {
    (x == 0 || x == DIM - 1) && (y == 0 || y == DIM - 1)
}

/// `(x, y)` is a board corner, or one of the four cells sharing only a corner with it holds color `c`.
pub open spec fn touches_tip(g: Grid<Occupancy>, c: Occupancy, x: int, y: int) -> bool {
    is_board_corner(x, y) || holds(g, c, x - 1, y - 1) || holds(g, c, x - 1, y + 1) || holds(
        g,
        c,
        x + 1,
        y - 1,
    ) || holds(g, c, x + 1, y + 1)
}

/// A piece of color `c` may cover `(x, y)`: the cell is on the board, empty,
/// and shares no side with a cell of color `c`.
pub open spec fn cell_free(g: Grid<Occupancy>, c: Occupancy, x: int, y: int) -> bool {
    in_bounds(x, y) && g.at(x, y) == Occupancy::Empty && !touches_side(g, c, x, y)
}

/// Color `c` may cover `cells`: each is free, and at least one touches a tip.
pub open spec fn placement_ok(g: Grid<Occupancy>, c: Occupancy, cells: Seq<(int, int)>) -> bool {
    &&& forall|i: int| 0 <= i < cells.len() ==> cell_free(g, c, #[trigger] cells[i].0, cells[i].1)
    &&& exists|i: int| 0 <= i < cells.len() && touches_tip(g, c, #[trigger] cells[i].0, cells[i].1)
}

/// The board cells that `piece`, turned by `rot`, covers when its mask's
/// top-left corner is put at `(col, row)`.
pub open spec fn placed_cells(piece: Piece, rot: Rotation, col: int, row: int) -> Seq<(int, int)> {
    solid_cells(piece.oriented(rot)).map_values(|p: (int, int)| (p.0 + col, p.1 + row))
}

/// Value of cell `(x, y)` after `cells` are given color `c`.
pub open spec fn painted(g: Grid<Occupancy>, c: Occupancy, cells: Seq<(int, int)>, x: int, y: int) -> Occupancy {
    if cells.contains((x, y)) {
        c
    } else {
        g.at(x, y)
    }
}

/// The validity map of `g` for color `c`, cell by cell in storage order.
pub open spec fn validity_map(g: Grid<Occupancy>, c: Occupancy) -> Seq<Validity> {
    Seq::new((DIM * DIM) as nat, |i: int| validity_of(g, c, i % (DIM as int), i / (DIM as int)))
}

/// Classification of cell `(x, y)` for color `c`.
pub open spec fn validity_of(g: Grid<Occupancy>, c: Occupancy, x: int, y: int) -> Validity {
    if g.at(x, y) != Occupancy::Empty || touches_side(g, c, x, y) {
        Validity::Invalid
    } else if touches_tip(g, c, x, y) {
        Validity::Anchor
    } else {
        Validity::Valid
    }
}

fn is_color(v: Option<Occupancy>, c: Occupancy) -> (r: bool)
    ensures
        r == (v == Some(c)),
{
    match v {
        Some(o) => o == c,
        None => false,
    }
}

/// The board cells that `piece`, turned by `rot`, covers when the top-left
/// corner of its turned mask is put at `(col, row)`, as `(x, y)`.
pub fn coords_for_placement(piece: Piece, rot: Rotation, col: i8, row: i8) -> (r: Vec<(i8, i8)>)
    requires
        col <= 123,
        row <= 123,
    ensures
        pairs_of(r@) == placed_cells(piece, rot, col as int, row as int),
{
    let offs = piece.offsets(rot);
    let ghost m = piece.oriented(rot);
    proof {
        lemma_shape_rect(piece);
        lemma_rotated_rect(piece.shape_spec(), rot);
        lemma_solid_cells_inside(m, m[0].len());
    }
    let ghost target = placed_cells(piece, rot, col as int, row as int);
    let mut out: Vec<(i8, i8)> = Vec::new();
    let mut i: usize = 0;
    while i < offs.offsets.len()
        invariant
            pairs_of(offs.offsets@) == solid_cells(m),
            target == placed_cells(piece, rot, col as int, row as int),
            m == piece.oriented(rot),
            width(m) <= 5,
            m.len() <= 5,
            forall|k: int| 0 <= k < solid_cells(m).len() ==> {
                let p = #[trigger] solid_cells(m)[k];
                0 <= p.0 < width(m) && 0 <= p.1 < m.len()
            },
            col <= 123,
            row <= 123,
            i <= offs.offsets.len(),
            out@.len() == i,
            forall|k: int| 0 <= k < i ==> #[trigger] pairs_of(out@)[k] == target[k],
        decreases offs.offsets.len() - i,
    {
        let (x, y) = offs.offsets[i];
        assert(pairs_of(offs.offsets@)[i as int] == (x as int, y as int));
        let ghost before = out@;
        out.push((col + x, row + y));
        assert(pairs_of(out@) =~= pairs_of(before).push(((col + x) as int, (row + y) as int)));
        i = i + 1;
    }
    assert(pairs_of(out@) =~= target);
    out
}

impl Board {
    /// The board's storage is well formed.
    pub open spec fn wf(&self) -> bool {
        self.occupancies.wf()
    }

    /// An empty board.
    pub fn new() -> (b: Board)
        ensures
            b.wf(),
            forall|x: int, y: int| in_bounds(x, y) ==> #[trigger] b.occupancies.at(x, y) == Occupancy::Empty,
    {
        let g: Grid<Occupancy> = Grid::new();
        assert forall|x: int, y: int| in_bounds(x, y) implies #[trigger] g.at(x, y) == Occupancy::Empty by {
            assert(0 <= cell_index(x, y) < g@.len());
        }
        Board { occupancies: g }
    }

    /// Checks if the sides are touching the same occupancy.
    fn touching_sides(&self, occupancy: Occupancy, x: i8, y: i8) -> (r: bool)
        requires
            self.wf(),
            in_bounds(x as int, y as int),
        ensures
            r == touches_side(self.occupancies, occupancy, x as int, y as int),
    {
        is_color(self.occupancies.get_opt(x - 1, y), occupancy) || is_color(
            self.occupancies.get_opt(x + 1, y),
            occupancy,
        ) || is_color(self.occupancies.get_opt(x, y - 1), occupancy) || is_color(
            self.occupancies.get_opt(x, y + 1),
            occupancy,
        )
    }

    /// Checks if the corners are touching the same occupancy, or the cell is a board corner.
    fn touching_tips(&self, occupancy: Occupancy, x: i8, y: i8) -> (r: bool)
        requires
            self.wf(),
            in_bounds(x as int, y as int),
        ensures
            r == touches_tip(self.occupancies, occupancy, x as int, y as int),
    {
        if (x == 0 || x == DIM as i8 - 1) && (y == 0 || y == DIM as i8 - 1) {
            return true;
        }
        is_color(self.occupancies.get_opt(x - 1, y - 1), occupancy) || is_color(
            self.occupancies.get_opt(x - 1, y + 1),
            occupancy,
        ) || is_color(self.occupancies.get_opt(x + 1, y - 1), occupancy) || is_color(
            self.occupancies.get_opt(x + 1, y + 1),
            occupancy,
        )
    }

    /// Whether color `occupancy` may cover the cells `coords`; the board is not changed.
    pub fn is_placement_valid(&self, occupancy: Occupancy, coords: &Vec<(i8, i8)>) -> (r: bool)
        requires
            self.wf(),
        ensures
            r == placement_ok(self.occupancies, occupancy, pairs_of(coords@)),
    {
        let ghost cells = pairs_of(coords@);
        let mut has_anchor = false;
        let mut i: usize = 0;
        while i < coords.len()
            invariant
                self.wf(),
                cells == pairs_of(coords@),
                i <= coords.len(),
                forall|k: int| 0 <= k < i ==> cell_free(self.occupancies, occupancy, #[trigger] cells[k].0, cells[k].1),
                has_anchor == exists|k: int| 0 <= k < i && touches_tip(self.occupancies, occupancy, #[trigger] cells[k].0, cells[k].1),
            decreases coords.len() - i,
        {
            let (x, y) = coords[i];
            assert(cells[i as int] == (x as int, y as int));
            if x < 0 || x >= DIM as i8 || y < 0 || y >= DIM as i8 {
                assert(!cell_free(self.occupancies, occupancy, cells[i as int].0, cells[i as int].1));
                return false;
            }
            if self.occupancies.get(x, y) != Occupancy::Empty {
                assert(!cell_free(self.occupancies, occupancy, cells[i as int].0, cells[i as int].1));
                return false;
            }
            if self.touching_sides(occupancy, x, y) {
                assert(!cell_free(self.occupancies, occupancy, cells[i as int].0, cells[i as int].1));
                return false;
            }
            if self.touching_tips(occupancy, x, y) {
                has_anchor = true;
            }
            i = i + 1;
        }
        has_anchor
    }

    /// Puts `piece`, turned by `rot`, with its mask's top-left corner at
    /// `(col, row)`, in color `occupancy`, if that placement is legal.
    /// Returns whether it was; an illegal placement leaves the board as it was.
    pub fn place(&mut self, occupancy: Occupancy, piece: Piece, rot: Rotation, col: i8, row: i8) -> (r: bool)
        requires
            old(self).wf(),
        ensures
            final(self).wf(),
            r == placement_ok(old(self).occupancies, occupancy, placed_cells(piece, rot, col as int, row as int)),
            r ==> forall|x: int, y: int| in_bounds(x, y) ==> #[trigger] final(self).occupancies.at(x, y) == painted(
                old(self).occupancies,
                occupancy,
                placed_cells(piece, rot, col as int, row as int),
                x,
                y,
            ),
            !r ==> *final(self) == *old(self),
    {
        let ghost cells = placed_cells(piece, rot, col as int, row as int);
        if col >= DIM as i8 || row >= DIM as i8 {
            proof {
                let m = piece.oriented(rot);
                lemma_shape_rect(piece);
                lemma_rotated_rect(piece.shape_spec(), rot);
                lemma_solid_cells_inside(m, m[0].len());
                if cells.len() > 0 {
                    assert(!cell_free(self.occupancies, occupancy, cells[0].0, cells[0].1));
                }
            }
            return false;
        }
        let coords = coords_for_placement(piece, rot, col, row);
        if !self.is_placement_valid(occupancy, &coords) {
            return false;
        }
        let ghost g0 = self.occupancies;
        let mut i: usize = 0;
        while i < coords.len()
            invariant
                self.wf(),
                cells == pairs_of(coords@),
                i <= coords.len(),
                placement_ok(g0, occupancy, cells),
                forall|x: int, y: int| in_bounds(x, y) ==> #[trigger] self.occupancies.at(x, y) == painted(
                    g0,
                    occupancy,
                    cells.subrange(0, i as int),
                    x,
                    y,
                ),
            decreases coords.len() - i,
        {
            let (x, y) = coords[i];
            assert(cells[i as int] == (x as int, y as int));
            assert(cell_free(g0, occupancy, cells[i as int].0, cells[i as int].1));
            let ghost before = self.occupancies;
            self.occupancies.set(x, y, occupancy);
            assert(cells.subrange(0, i + 1) =~= cells.subrange(0, i as int).push((x as int, y as int)));
            assert forall|a: int, b: int| in_bounds(a, b) implies #[trigger] self.occupancies.at(a, b) == painted(
                g0,
                occupancy,
                cells.subrange(0, i + 1),
                a,
                b,
            ) by {
                if a == x && b == y {
                    assert(0 <= cell_index(a, b) < DIM * DIM);
                    assert(cells.subrange(0, i + 1)[i as int] == (a, b));
                } else {
                    assert(0 <= cell_index(a, b) < DIM * DIM);
                    assert(cell_index(a, b) != cell_index(x as int, y as int));
                    assert(self.occupancies.at(a, b) == before.at(a, b));
                    if cells.subrange(0, i + 1).contains((a, b)) {
                        let k = choose|k: int| 0 <= k < i + 1 && #[trigger] cells.subrange(0, i + 1)[k] == (a, b);
                        assert(k < i);
                        assert(cells.subrange(0, i as int)[k] == (a, b));
                    }
                    if cells.subrange(0, i as int).contains((a, b)) {
                        let k = choose|k: int| 0 <= k < i && #[trigger] cells.subrange(0, i as int)[k] == (a, b);
                        assert(cells.subrange(0, i + 1)[k] == (a, b));
                    }
                }
            }
            i = i + 1;
        }
        assert(cells.subrange(0, i as int) =~= cells);
        true
    }
    /// Writes into `placements`, for every board cell, how it stands for
    /// color `occupancy`'s next placement.
    pub fn vomit_placements(&self, occupancy: Occupancy, placements: &mut Grid<Validity>)
        requires
            self.wf(),
            old(placements).wf(),
        ensures
            final(placements).wf(),
            forall|x: int, y: int| in_bounds(x, y) ==> #[trigger] final(placements).at(x, y) == validity_of(
                self.occupancies,
                occupancy,
                x,
                y,
            ),
    {
        let mut y: i8 = 0;
        while y < DIM as i8
            invariant
                self.wf(),
                placements.wf(),
                0 <= y <= DIM,
                forall|a: int, b: int| in_bounds(a, b) && b < y ==> #[trigger] placements.at(a, b) == validity_of(
                    self.occupancies,
                    occupancy,
                    a,
                    b,
                ),
            decreases DIM - y,
        {
            let mut x: i8 = 0;
            while x < DIM as i8
                invariant
                    self.wf(),
                    placements.wf(),
                    0 <= y < DIM,
                    0 <= x <= DIM,
                    forall|a: int, b: int| in_bounds(a, b) && (b < y || (b == y && a < x)) ==> #[trigger] placements.at(a, b) == validity_of(
                        self.occupancies,
                        occupancy,
                        a,
                        b,
                    ),
                decreases DIM - x,
            {
                let v = if self.occupancies.get(x, y) != Occupancy::Empty || self.touching_sides(occupancy, x, y) {
                    Validity::Invalid
                } else if self.touching_tips(occupancy, x, y) {
                    Validity::Anchor
                } else {
                    Validity::Valid
                };
                let ghost before = *placements;
                placements.set(x, y, v);
                assert forall|a: int, b: int| in_bounds(a, b) && (b < y || (b == y && a < x + 1)) implies #[trigger] placements.at(a, b) == validity_of(
                    self.occupancies,
                    occupancy,
                    a,
                    b,
                ) by {
                    assert(0 <= cell_index(a, b) < DIM * DIM);
                    if a != x || b != y {
                        assert(cell_index(a, b) != cell_index(x as int, y as int));
                        assert(placements.at(a, b) == before.at(a, b));
                    }
                }
                x = x + 1;
            }
            y = y + 1;
        }
    }

    /// The validity map of the board for color `occupancy`.
    pub fn derive_validity_map(&self, occupancy: Occupancy) -> (g: Grid<Validity>)
        requires
            self.wf(),
        ensures
            g.wf(),
            g@ == validity_map(self.occupancies, occupancy),
            forall|x: int, y: int| in_bounds(x, y) ==> #[trigger] g.at(x, y) == validity_of(
                self.occupancies,
                occupancy,
                x,
                y,
            ),
    {
        let mut g: Grid<Validity> = Grid::new();
        self.vomit_placements(occupancy, &mut g);
        assert forall|i: int| 0 <= i < DIM * DIM implies #[trigger] g@[i] == validity_map(self.occupancies, occupancy)[i] by {
            lemma_index_of_cell(i);
            assert(g.at(i % (DIM as int), i / (DIM as int)) == g@[i]);
        }
        assert(g@ =~= validity_map(self.occupancies, occupancy));
        g
    }

    /// The validity map for color `occupancy` as text: `X` for an invalid
    /// cell, `O` for an anchor, `-` for any other, one line per row.
    pub fn placements_text(&self, occupancy: Occupancy) -> (s: String)
        requires
            self.wf(),
        ensures
            s@ == text_upto(validity_map(self.occupancies, occupancy), (DIM * DIM) as nat),
    {
        let g = self.derive_validity_map(occupancy);
        g.to_string()
    }
}

/// `p` and `q` share a side.
pub open spec fn edge_adjacent(p: (int, int), q: (int, int)) -> bool {
    (p.0 == q.0 && (p.1 - q.1 == 1 || q.1 - p.1 == 1)) || (p.1 == q.1 && (p.0 - q.0 == 1 || q.0 - p.0 == 1))
}

/// A legal placement of color `c` puts no cell beside a cell that already held `c`:
/// pieces of one color never touch flush.
pub proof fn lemma_no_self_touch(g: Grid<Occupancy>, c: Occupancy, cells: Seq<(int, int)>, i: int, q: (int, int))
    requires
        placement_ok(g, c, cells),
        0 <= i < cells.len(),
        holds(g, c, q.0, q.1),
    ensures
        !edge_adjacent(cells[i], q),
{
    assert(cell_free(g, c, cells[i].0, cells[i].1));
}

/// Color `c` has no cell on the board yet.
pub open spec fn first_move(g: Grid<Occupancy>, c: Occupancy) -> bool {
    forall|x: int, y: int| in_bounds(x, y) ==> #[trigger] g.at(x, y) != c
}

/// A color's first placement is legal only if one of its cells is a board corner.
pub proof fn lemma_first_move_anchor(g: Grid<Occupancy>, c: Occupancy, cells: Seq<(int, int)>)
    requires
        first_move(g, c),
        placement_ok(g, c, cells),
    ensures
        exists|i: int| 0 <= i < cells.len() && is_board_corner(#[trigger] cells[i].0, cells[i].1),
{
    let i = choose|i: int| 0 <= i < cells.len() && touches_tip(g, c, #[trigger] cells[i].0, cells[i].1);
    let (x, y) = cells[i];
    assert(!holds(g, c, x - 1, y - 1));
    assert(!holds(g, c, x - 1, y + 1));
    assert(!holds(g, c, x + 1, y - 1));
    assert(!holds(g, c, x + 1, y + 1));
}

/// No legal placement covers a cell that the validity map marks `Invalid`.
pub proof fn lemma_invalid_cell_blocks(g: Grid<Occupancy>, c: Occupancy, cells: Seq<(int, int)>, x: int, y: int)
    requires
        in_bounds(x, y),
        validity_of(g, c, x, y) == Validity::Invalid,
        cells.contains((x, y)),
    ensures
        !placement_ok(g, c, cells),
{
    let i = choose|i: int| 0 <= i < cells.len() && cells[i] == (x, y);
    assert(!cell_free(g, c, cells[i].0, cells[i].1));
}

/// On a cell that the validity map marks `Anchor`, the one-cell piece may be placed, in any rotation.
pub proof fn lemma_anchor_cell_admits(g: Grid<Occupancy>, c: Occupancy, rot: Rotation, x: int, y: int)
    requires
        in_bounds(x, y),
        validity_of(g, c, x, y) == Validity::Anchor,
    ensures
        placed_cells(Piece::One, rot, x, y) == seq![(x, y)],
        placement_ok(g, c, placed_cells(Piece::One, rot, x, y)),
{
    reveal_with_fuel(crate::shape::cells_upto, 2);
    reveal_with_fuel(crate::shape::column_cells, 2);
    assert(solid_cells(Piece::One.oriented(rot)) =~= seq![(0int, 0int)]);
    assert(placed_cells(Piece::One, rot, x, y) =~= seq![(x, y)]);
    let cells = placed_cells(Piece::One, rot, x, y);
    assert(cells[0] == (x, y));
    assert(touches_tip(g, c, cells[0].0, cells[0].1));
}

/// Every piece of `pieces` lies on the board in color `c`, and no two of
/// them share a side.
pub open spec fn pieces_apart(g: Grid<Occupancy>, c: Occupancy, pieces: Seq<Seq<(int, int)>>) -> bool {
    &&& forall|i: int, k: int| 0 <= i < pieces.len() && 0 <= k < pieces[i].len() ==> holds(g, c, #[trigger] pieces[i][k].0, pieces[i][k].1)
    &&& forall|i: int, j: int, k: int, l: int|
        0 <= i < pieces.len() && 0 <= j < pieces.len() && i != j && 0 <= k < pieces[i].len() && 0 <= l < pieces[j].len()
            ==> !(#[trigger] edge_adjacent(pieces[i][k], pieces[j][l]))
}

/// Pieces of one color placed by legal placements never touch flush. No
/// pieces at all are apart on any board; after a legal placement of color
/// `d` that writes `d` exactly on its cells (as `place` does), the pieces of
/// color `c` stay apart, the new piece among them when `d` is `c`. A failed
/// `place` leaves the board as it was, so the property holds along any
/// sequence of `place` calls.
pub proof fn lemma_pieces_apart_step(
    g: Grid<Occupancy>,
    g2: Grid<Occupancy>,
    c: Occupancy,
    d: Occupancy,
    cells: Seq<(int, int)>,
    pieces: Seq<Seq<(int, int)>>,
)
    requires
        c != Occupancy::Empty,
        pieces_apart(g, c, pieces),
        placement_ok(g, d, cells),
        forall|x: int, y: int| in_bounds(x, y) ==> #[trigger] g2.at(x, y) == painted(g, d, cells, x, y),
    ensures
        pieces_apart(g, c, seq![]),
        pieces_apart(g2, c, if d == c { pieces.push(cells) } else { pieces }),
{
    let after = if d == c { pieces.push(cells) } else { pieces };
    // a cell that held `c` is not painted over
    assert forall|x: int, y: int| holds(g, c, x, y) implies !cells.contains((x, y)) && g2.at(x, y) == c by {
        if cells.contains((x, y)) {
            let k = choose|k: int| 0 <= k < cells.len() && cells[k] == (x, y);
            assert(cell_free(g, d, cells[k].0, cells[k].1));
        }
    }
    assert forall|i: int, k: int| 0 <= i < after.len() && 0 <= k < after[i].len() implies holds(g2, c, #[trigger] after[i][k].0, after[i][k].1) by {
        if i < pieces.len() {
            assert(after[i] == pieces[i]);
            assert(holds(g, c, pieces[i][k].0, pieces[i][k].1));
        } else {
            assert(after[i] == cells);
            assert(cell_free(g, d, cells[k].0, cells[k].1));
            assert(cells.contains((cells[k].0, cells[k].1)));
        }
    }
    assert forall|i: int, j: int, k: int, l: int|
        0 <= i < after.len() && 0 <= j < after.len() && i != j && 0 <= k < after[i].len() && 0 <= l < after[j].len()
            implies !(#[trigger] edge_adjacent(after[i][k], after[j][l])) by {
        if i < pieces.len() && j < pieces.len() {
            assert(after[i] == pieces[i] && after[j] == pieces[j]);
            assert(!edge_adjacent(pieces[i][k], pieces[j][l]));
        } else if i < pieces.len() {
            assert(after[i] == pieces[i] && after[j] == cells);
            assert(holds(g, c, pieces[i][k].0, pieces[i][k].1));
            lemma_no_self_touch(g, c, cells, l, pieces[i][k]);
        } else {
            assert(after[j] == pieces[j] && after[i] == cells);
            assert(holds(g, c, pieces[j][l].0, pieces[j][l].1));
            lemma_no_self_touch(g, c, cells, k, pieces[j][l]);
        }
    }
}

} // verus!
