//! Conway's Game of Life on a grid whose edges wrap around.
use crate::text::push_char;
use vstd::prelude::*;

verus! {

/// The state of one cell of the grid.
#[derive(Copy, Clone, Debug, PartialEq, Eq, Structural)]
pub enum Cell {
    Dead,
    Alive,
}

impl Cell {
    fn toggle(&mut self)
        ensures
            *final(self) == if *old(self) == Cell::Dead {
                Cell::Alive
            } else {
                Cell::Dead
            },
    {
        *self = match *self {
            Cell::Dead => Cell::Alive,
            Cell::Alive => Cell::Dead,
        }
    }
}

/// 1 for a live cell, 0 for a dead one.
pub open spec fn alive(c: Cell) -> int {
    if c == Cell::Alive {
        1
    } else {
        0
    }
}

/// What a neighbour at offset `(dr, dc)` adds to the count around
/// `(row, col)` on a `w` by `h` grid: offsets wrap around the edges, and the
/// offset `(0, 0)`, the cell itself, adds nothing.
pub open spec fn neighbor(grid: Seq<Cell>, w: nat, h: nat, row: nat, col: nat, dr: nat, dc: nat) -> int {
    if dr == 0 && dc == 0 {
        0
    } else {
        alive(grid[((row + dr) as int % h as int) * w + (col + dc) as int % w as int])
    }
}

/// The live cells around `(row, col)`: the offsets are taken from
/// `[h - 1, 0, 1]` for rows and `[w - 1, 0, 1]` for columns, as steps that
/// wrap around, with the cell itself left out.
pub open spec fn live_neighbors(grid: Seq<Cell>, w: nat, h: nat, row: nat, col: nat) -> int {
    let up = (h - 1) as nat;
    let left = (w - 1) as nat;
    neighbor(grid, w, h, row, col, up, left) + neighbor(grid, w, h, row, col, up, 0)
        + neighbor(grid, w, h, row, col, up, 1) + neighbor(grid, w, h, row, col, 0, left)
        + neighbor(grid, w, h, row, col, 0, 0) + neighbor(grid, w, h, row, col, 0, 1)
        + neighbor(grid, w, h, row, col, 1, left) + neighbor(grid, w, h, row, col, 1, 0)
        + neighbor(grid, w, h, row, col, 1, 1)
}

/// The next state of a cell with `n` live neighbours: a live cell with two
/// or three lives on, other live cells die, and a dead cell with exactly
/// three comes alive.
pub open spec fn next_cell(c: Cell, n: int) -> Cell {
    if c == Cell::Alive {
        if n == 2 || n == 3 {
            Cell::Alive
        } else {
            Cell::Dead
        }
    } else if n == 3 {
        Cell::Alive
    } else {
        Cell::Dead
    }
}

/// The symbol that shows a cell.
pub open spec fn symbol(c: Cell) -> char {
    if c == Cell::Dead {
        '◻'
    } else {
        '◼'
    }
}

/// The cells of `grid` as text, `w` to a line, each line ended by a newline.
pub open spec fn rendered(grid: Seq<Cell>, w: nat) -> Seq<char>
    decreases grid.len(),
{
    if grid.len() == 0 {
        Seq::empty()
    } else {
        let before = rendered(grid.drop_last(), w) + seq![symbol(grid.last())];
        if grid.len() as int % w as int == 0 {
            before.push('\n')
        } else {
            before
        }
    }
}

/// The cells of the initial universe: alive where the index is even or a
/// multiple of seven.
pub open spec fn initial_cell(i: int) -> Cell {
    if i % 2 == 0 || i % 7 == 0 {
        Cell::Alive
    } else {
        Cell::Dead
    }
}

/// A grid of cells, stored row after row.
pub struct Universe {
    width: u32,
    height: u32,
    cells: Vec<Cell>,
}

proof fn lemma_index_in_grid(row: int, col: int, w: int, h: int)
    requires
        0 <= row < h,
        0 <= col < w,
    ensures
        0 <= row * w + col < w * h,
{
    assert(row * w + col < w * h) by (nonlinear_arith)
        requires
            0 <= row < h,
            0 <= col < w,
    ;
    assert(0 <= row * w) by (nonlinear_arith)
        requires
            0 <= row,
            0 <= w,
    ;
}

impl Universe {
    /// The number of columns.
    pub closed spec fn cols(&self) -> nat {
        self.width as nat
    }

    /// The number of rows.
    pub closed spec fn rows(&self) -> nat {
        self.height as nat
    }

    /// The cells, row after row.
    pub closed spec fn grid(&self) -> Seq<Cell> {
        self.cells@
    }

    /// The grid holds one cell for each row and column, and every index of
    /// it fits in a `u32`.
    pub open spec fn wf(&self) -> bool {
        &&& self.grid().len() == self.cols() * self.rows()
        &&& self.cols() * self.rows() <= u32::MAX
    }

    /// Where the cell at `(row, column)` is stored.
    pub fn get_index(&self, row: u32, column: u32) -> (r: usize)
        requires
            self.wf(),
            row < self.rows(),
            column < self.cols(),
        ensures
            r == row * self.cols() + column,
            r < self.grid().len(),
    {
        proof {
            lemma_index_in_grid(row as int, column as int, self.width as int, self.height as int);
        }
        (row * self.width + column) as usize
    }

    fn neighbor(&self, row: u32, column: u32, dr: u32, dc: u32) -> (r: u8)
        requires
            self.wf(),
            row < self.rows(),
            column < self.cols(),
            dr <= self.rows(),
            dc <= self.cols(),
        ensures
            r == neighbor(self.grid(), self.cols(), self.rows(), row as nat, column as nat, dr as nat, dc as nat),
    {
        if dr == 0 && dc == 0 {
            return 0;
        }
        let r = ((row as u64 + dr as u64) % self.height as u64) as u32;
        let c = ((column as u64 + dc as u64) % self.width as u64) as u32;
        let idx = self.get_index(r, c);
        match self.cells[idx] {
            Cell::Alive => 1,
            Cell::Dead => 0,
        }
    }

    /// The live cells around `(row, column)`.
    fn live_neighbor_count(&self, row: u32, column: u32) -> (r: u8)
        requires
            self.wf(),
            row < self.rows(),
            column < self.cols(),
        ensures
            r == live_neighbors(self.grid(), self.cols(), self.rows(), row as nat, column as nat),
    {
        let up = self.height - 1;
        let left = self.width - 1;
        let a = self.neighbor(row, column, up, left);
        let b = self.neighbor(row, column, up, 0);
        let c = self.neighbor(row, column, up, 1);
        let d = self.neighbor(row, column, 0, left);
        let e = self.neighbor(row, column, 0, 1);
        let f = self.neighbor(row, column, 1, left);
        let g = self.neighbor(row, column, 1, 0);
        let h = self.neighbor(row, column, 1, 1);
        a + b + c + d + e + f + g + h
    }

    /// Flips the cell at `(row, column)` between dead and alive.
    pub fn toggle_cell(&mut self, row: u32, column: u32)
        requires
            old(self).wf(),
            row < old(self).rows(),
            column < old(self).cols(),
        ensures
            final(self).wf(),
            final(self).cols() == old(self).cols(),
            final(self).rows() == old(self).rows(),
            final(self).grid() == old(self).grid().update(
                row * old(self).cols() + column,
                if old(self).grid()[row * old(self).cols() + column] == Cell::Dead {
                    Cell::Alive
                } else {
                    Cell::Dead
                },
            ),
    {
        let idx = self.get_index(row, column);
        let mut c = self.cells[idx];
        c.toggle();
        self.cells.set(idx, c);
    }

    /// Moves every cell on by one generation, all at once.
    pub fn tick(&mut self)
        requires
            old(self).wf(),
        ensures
            final(self).wf(),
            final(self).cols() == old(self).cols(),
            final(self).rows() == old(self).rows(),
            forall|row: int, col: int|
                0 <= row < old(self).rows() && 0 <= col < old(self).cols() ==> #[trigger] final(self).grid()[row
                    * old(self).cols() + col] == next_cell(
                    old(self).grid()[row * old(self).cols() + col],
                    live_neighbors(
                        old(self).grid(),
                        old(self).cols(),
                        old(self).rows(),
                        row as nat,
                        col as nat,
                    ),
                ),
    {
        let mut next: Vec<Cell> = Vec::new();
        let mut row: u32 = 0;
        while row < self.height
            invariant
                self.wf(),
                self == old(self),
                row <= self.height,
                next@.len() == row * self.width,
                forall|r: nat, c: nat|
                    r < row && c < self.width ==> #[trigger] next@[r * self.width + c] == next_cell(
                        self.grid()[r * self.width + c],
                        live_neighbors(self.grid(), self.cols(), self.rows(), r, c),
                    ),
            decreases self.height - row,
        {
            let mut col: u32 = 0;
            while col < self.width
                invariant
                    self.wf(),
                    self == old(self),
                    row < self.height,
                    col <= self.width,
                    next@.len() == row * self.width + col,
                    forall|r: nat, c: nat|
                        (r < row && c < self.width) || (r == row && c < col) ==> #[trigger] next@[r
                            * self.width + c] == next_cell(
                            self.grid()[r * self.width + c],
                            live_neighbors(self.grid(), self.cols(), self.rows(), r, c),
                        ),
                decreases self.width - col,
            {
                let idx = self.get_index(row, col);
                let cell = self.cells[idx];
                let live = self.live_neighbor_count(row, col);
                let after = match cell {
                    Cell::Alive => if live == 2 || live == 3 {
                        Cell::Alive
                    } else {
                        Cell::Dead
                    },
                    Cell::Dead => if live == 3 {
                        Cell::Alive
                    } else {
                        Cell::Dead
                    },
                };
                let ghost before = next@;
                next.push(after);
                proof {
                    assert forall|r: nat, c: nat|
                        (r < row && c < self.width) || (r == row && c < col + 1) implies #[trigger] next@[r
                        * self.width + c] == next_cell(
                        self.grid()[r * self.width + c],
                        live_neighbors(self.grid(), self.cols(), self.rows(), r, c),
                    ) by {
                        if !(r == row && c == col) {
                            lemma_row_major_before(r as int, c as int, row as int, col as int, self.width as int);
                            assert(next@[r * self.width + c] == before[r * self.width + c]);
                        }
                    }
                }
                col = col + 1;
            }
            proof {
                assert(next@.len() == (row + 1) * self.width) by (nonlinear_arith)
                    requires
                        next@.len() == row * self.width + self.width,
                ;
            }
            row = row + 1;
        }
        proof {
            assert(next@.len() == self.width * self.height) by (nonlinear_arith)
                requires
                    next@.len() == row * self.width,
                    row == self.height,
            ;
        }
        self.cells = next;
    }

    /// The grid as text: one line per row, `◼` for a live cell and `◻` for a
    /// dead one.
    pub fn render(&self) -> (r: String)
        requires
            self.wf(),
            self.cols() > 0,
        ensures
            r@ == rendered(self.grid(), self.cols()),
    {
        let mut out = String::new();
        let mut i: usize = 0;
        while i < self.cells.len()
            invariant
                self.wf(),
                self.width > 0,
                i <= self.cells@.len(),
                out@ == rendered(self.cells@.subrange(0, i as int), self.cols()),
            decreases self.cells@.len() - i,
        {
            let cell = self.cells[i];
            let sym = if cell == Cell::Dead { '◻' } else { '◼' };
            push_char(&mut out, sym);
            assert(self.cells@.subrange(0, i + 1).drop_last() =~= self.cells@.subrange(0, i as int));
            if (i + 1) % (self.width as usize) == 0 {
                push_char(&mut out, '\n');
            }
            i = i + 1;
        }
        assert(self.cells@.subrange(0, i as int) =~= self.cells@);
        out
    }

    /// Sets the number of columns; every cell is then dead.
    pub fn set_width(&mut self, width: u32)
        requires
            width * old(self).rows() <= u32::MAX,
        ensures
            final(self).wf(),
            final(self).cols() == width,
            final(self).rows() == old(self).rows(),
            final(self).grid() == Seq::new((width * old(self).rows()) as nat, |i: int| Cell::Dead),
    {
        self.width = width;
        self.cells = dead_cells(width * self.height);
    }

    /// Sets the number of rows; every cell is then dead.
    pub fn set_height(&mut self, height: u32)
        requires
            old(self).cols() * height <= u32::MAX,
        ensures
            final(self).wf(),
            final(self).rows() == height,
            final(self).cols() == old(self).cols(),
            final(self).grid() == Seq::new((old(self).cols() * height) as nat, |i: int| Cell::Dead),
    {
        self.height = height;
        self.cells = dead_cells(self.width * height);
    }

    /// The number of columns.
    pub fn width(&self) -> (r: u32)
        ensures
            r == self.cols(),
    {
        self.width
    }

    /// The number of rows.
    pub fn height(&self) -> (r: u32)
        ensures
            r == self.rows(),
    {
        self.height
    }

    /// A 64 by 64 universe, alive where the index is even or a multiple of
    /// seven.
    pub fn new() -> (r: Universe)
        ensures
            r.wf(),
            r.cols() == 64,
            r.rows() == 64,
            r.grid() == Seq::new(64 * 64, |i: int| initial_cell(i)),
    {
        let width: u32 = 64;
        let height: u32 = 64;
        let mut cells: Vec<Cell> = Vec::new();
        let mut i: u32 = 0;
        while i < width * height
            invariant
                width == 64,
                height == 64,
                i <= width * height,
                cells@ == Seq::new(i as nat, |k: int| initial_cell(k)),
            decreases width * height - i,
        {
            let c = if i % 2 == 0 || i % 7 == 0 {
                Cell::Alive
            } else {
                Cell::Dead
            };
            cells.push(c);
            assert(cells@ =~= Seq::new((i + 1) as nat, |k: int| initial_cell(k)));
            i = i + 1;
        }
        Universe { width, height, cells }
    }

    /// The cells, row after row.
    pub fn get_cells(&self) -> (r: &[Cell])
        ensures
            r@ == self.grid(),
    {
        self.cells.as_slice()
    }

    /// Brings each listed `(row, column)` cell to life.
    pub fn set_cells(&mut self, cells: &[(u32, u32)])
        requires
            old(self).wf(),
            forall|k: int|
                0 <= k < cells@.len() ==> (#[trigger] cells@[k]).0 < old(self).rows() && cells@[k].1
                    < old(self).cols(),
        ensures
            final(self).wf(),
            final(self).cols() == old(self).cols(),
            final(self).rows() == old(self).rows(),
            forall|i: int|
                0 <= i < old(self).grid().len() ==> #[trigger] final(self).grid()[i] == if exists|k: int|
                    0 <= k < cells@.len() && cells@[k].0 * old(self).cols() + cells@[k].1 == i {
                    Cell::Alive
                } else {
                    old(self).grid()[i]
                },
    {
        let mut k: usize = 0;
        while k < cells.len()
            invariant
                old(self).wf(),
                self.wf(),
                self.cols() == old(self).cols(),
                self.rows() == old(self).rows(),
                k <= cells@.len(),
                forall|j: int|
                    0 <= j < cells@.len() ==> (#[trigger] cells@[j]).0 < old(self).rows() && cells@[j].1
                        < old(self).cols(),
                forall|i: int|
                    0 <= i < old(self).grid().len() ==> #[trigger] self.grid()[i] == if exists|j: int|
                        0 <= j < k && cells@[j].0 * old(self).cols() + cells@[j].1 == i {
                        Cell::Alive
                    } else {
                        old(self).grid()[i]
                    },
            decreases cells@.len() - k,
        {
            let (row, col) = cells[k];
            let idx = self.get_index(row, col);
            let ghost prev = self.cells@;
            self.cells.set(idx, Cell::Alive);
            proof {
                let w = old(self).cols();
                assert forall|i: int| 0 <= i < old(self).grid().len() implies #[trigger] self.grid()[i]
                    == if exists|j: int| 0 <= j < k + 1 && cells@[j].0 * w + cells@[j].1 == i {
                    Cell::Alive
                } else {
                    old(self).grid()[i]
                } by {
                    if i == idx as int {
                        assert(0 <= k < k + 1 && cells@[k as int].0 * w + cells@[k as int].1 == i);
                    } else {
                        assert(self.grid()[i] == prev[i]);
                        if exists|j: int| 0 <= j < k + 1 && cells@[j].0 * w + cells@[j].1 == i {
                            let j = choose|j: int| 0 <= j < k + 1 && cells@[j].0 * w + cells@[j].1 == i;
                            assert(j != k);
                            assert(0 <= j < k && cells@[j].0 * w + cells@[j].1 == i);
                        }
                        if exists|j: int| 0 <= j < k && cells@[j].0 * w + cells@[j].1 == i {
                            let j = choose|j: int| 0 <= j < k && cells@[j].0 * w + cells@[j].1 == i;
                            assert(0 <= j < k + 1 && cells@[j].0 * w + cells@[j].1 == i);
                        }
                    }
                }
            }
            k = k + 1;
        }
    }
}

impl Default for Universe {
    fn default() -> (r: Universe)
        ensures
            r.wf(),
            r.cols() == 64,
            r.rows() == 64,
            r.grid() == Seq::new(64 * 64, |i: int| initial_cell(i)),
    {
        Universe::new()
    }
}

fn dead_cells(n: u32) -> (r: Vec<Cell>)
    ensures
        r@ == Seq::new(n as nat, |i: int| Cell::Dead),
{
    let mut cells: Vec<Cell> = Vec::new();
    let mut i: u32 = 0;
    while i < n
        invariant
            i <= n,
            cells@ == Seq::new(i as nat, |k: int| Cell::Dead),
        decreases n - i,
    {
        cells.push(Cell::Dead);
        assert(cells@ =~= Seq::new((i + 1) as nat, |k: int| Cell::Dead));
        i = i + 1;
    }
    cells
}

proof fn lemma_row_major_before(r: int, c: int, row: int, col: int, w: int)
    requires
        0 <= r,
        0 <= c,
        0 <= col,
        (r < row && c < w) || (r == row && c < col),
    ensures
        r * w + c < row * w + col,
{
    if r < row {
        assert(r * w + c < row * w + col) by (nonlinear_arith)
            requires
                r < row,
                c < w,
                0 <= c,
                0 <= col,
        ;
    }
}

} // verus!
