use vstd::prelude::*;

verus! {

/// Side length of the square board.
pub const DIM: usize = 20;

/// Whether `(x, y)` names a cell of a `DIM` by `DIM` grid.
pub open spec fn in_bounds(x: int, y: int) -> bool {
    0 <= x < DIM as int && 0 <= y < DIM as int
}

/// Row-major position of cell `(x, y)` in the backing storage.
pub open spec fn cell_index(x: int, y: int) -> int {
    x + y * (DIM as int)
}

/// A `DIM` by `DIM` square of cells, stored row by row.
#[derive(Clone, Debug, PartialEq, Eq)]
pub struct Grid<T> {
    cells: Vec<T>,
}

impl<T> View for Grid<T> {
    type V = Seq<T>;

    closed spec fn view(&self) -> Seq<T> {
        self.cells@
    }
}

impl<T> Grid<T> {
    /// The storage holds exactly one value per cell.
    pub open spec fn wf(&self) -> bool {
        self@.len() == DIM * DIM
    }

    /// The value held at `(x, y)`.
    pub open spec fn at(&self, x: int, y: int) -> T {
        self@[cell_index(x, y)]
    }
}

impl<T: Default + Copy> Grid<T> {
    /// A grid with every cell set to the default value of `T`.
    pub fn new() -> (g: Self)
        ensures
            g.wf(),
            forall|i: int| 0 <= i < g@.len() ==> call_ensures(T::default, (), #[trigger] g@[i]),
    {
        let mut cells: Vec<T> = Vec::new();
        let mut k: usize = 0;
        while k < DIM * DIM
            invariant
                k <= DIM * DIM,
                cells@.len() == k,
                forall|i: int| 0 <= i < k ==> call_ensures(T::default, (), #[trigger] cells@[i]),
            decreases DIM * DIM - k,
        {
            cells.push(T::default());
            k = k + 1;
        }
        Grid { cells }
    }
}

impl<T: Copy> Grid<T> {
    /// The value at `(x, y)`, which must lie on the grid.
    pub fn get(&self, x: i8, y: i8) -> (v: T)
        requires
            self.wf(),
            in_bounds(x as int, y as int),
        ensures
            v == self.at(x as int, y as int),
    {
        self.cells[x as usize + y as usize * DIM]
    }

    /// The value at `(x, y)`, or `None` when `(x, y)` lies off the grid.
    pub fn get_opt(&self, x: i8, y: i8) -> (v: Option<T>)
        requires
            self.wf(),
        ensures
            v == (if in_bounds(x as int, y as int) {
                Some(self.at(x as int, y as int))
            } else {
                None
            }),
    {
        if x < 0 || x >= DIM as i8 || y < 0 || y >= DIM as i8 {
            None
        } else {
            Some(self.cells[x as usize + y as usize * DIM])
        }
    }

    /// Writes `value` at `(x, y)`, which must lie on the grid; every other cell is kept.
    pub fn set(&mut self, x: i8, y: i8, value: T)
        requires
            old(self).wf(),
            in_bounds(x as int, y as int),
        ensures
            final(self).wf(),
            final(self)@ == old(self)@.update(cell_index(x as int, y as int), value),
    {
        self.cells.set(x as usize + y as usize * DIM, value);
    }
}

/// A cell value with a short printable form.
pub trait CellText {
    spec fn text_spec(&self) -> Seq<char>;

    fn cell_text(&self) -> (r: &'static str)
        ensures
            r@ == self.text_spec(),
    ;
}

/// Text of the first `k` cells: each cell's form, with a line break before every new row.
pub open spec fn text_upto<T: CellText>(cells: Seq<T>, k: nat) -> Seq<char>
    decreases k,
{
    if k == 0 {
        seq![]
    } else {
        text_upto(cells, (k - 1) as nat) + (if k - 1 > 0 && (k - 1) % (DIM as int) == 0 {
            seq!['\n']
        } else {
            seq![]
        }) + cells[k - 1].text_spec()
    }
}

impl<T: CellText> Grid<T> {
    /// The grid as text: one line per row, each cell in its printable form.
    pub fn to_string(&self) -> (s: String)
        ensures
            s@ == text_upto(self@, self@.len()),
    {
        let mut s = String::new();
        let mut i: usize = 0;
        while i < self.cells.len()
            invariant
                i <= self.cells@.len(),
                s@ == text_upto(self@, i as nat),
            decreases self.cells.len() - i,
        {
            if i > 0 && i % DIM == 0 {
                proof {
                    reveal_strlit("\n");
                }
                s.append("\n");
            }
            s.append(self.cells[i].cell_text());
            i = i + 1;
        }
        s
    }
}

/// Every storage position belongs to the on-grid cell `(i % DIM, i / DIM)`.
pub proof fn lemma_index_of_cell(i: int)
    requires
        0 <= i < DIM * DIM,
    ensures
        in_bounds(i % (DIM as int), i / (DIM as int)),
        cell_index(i % (DIM as int), i / (DIM as int)) == i,
{
}

} // verus!
