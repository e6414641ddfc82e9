//! A grid of cells that evolves in steps: each cell lives or dies by the
//! number of live cells beside it, above or below it.
use vstd::prelude::*;

verus! {

/// Where something is drawn: a pixel offset.
pub struct Position2D {
    pub x: i32,
    pub y: i32,
}

/// The state of one cell of the grid.
#[derive(Copy, Clone, PartialEq, Eq, Structural, Debug)]
pub enum CellState {
    Alive,
    Dead,
}

/// Whether a cell in state `alive` with `n` live neighbours lives after a
/// step: a live cell stays alive with two or three, a dead one comes alive
/// with exactly three.
pub open spec fn next_alive(alive: bool, n: int) -> bool {
    if alive {
        n == 2 || n == 3
    } else {
        n == 3
    }
}

/// A grid of `rows` by `cols` cells.
pub struct GameOfLife {
    rows: usize,
    cols: usize,
    board: Vec<Vec<CellState>>,
}

impl GameOfLife {
    /// The number of rows.
    pub closed spec fn height(&self) -> nat {
        self.rows as nat
    }

    /// The number of columns.
    pub closed spec fn width(&self) -> nat {
        self.cols as nat
    }

    /// The board has `height()` rows of `width()` cells each.
    pub closed spec fn wf(&self) -> bool {
        &&& self.board@.len() == self.rows
        &&& forall|i: int| 0 <= i < self.rows ==> #[trigger] self.board@[i]@.len() == self.cols
    }

    /// Whether the cell in row `x`, column `y` is alive.
    pub closed spec fn alive(&self, x: int, y: int) -> bool {
        self.board@[x]@[y] == CellState::Alive
    }

    /// Whether the cell in row `x`, column `y` lies on the grid and is alive.
    pub open spec fn alive_at(&self, x: int, y: int) -> bool {
        0 <= x < self.height() && 0 <= y < self.width() && self.alive(x, y)
    }

    /// The number of live cells directly above, below, left and right of the
    /// cell in row `x`, column `y`.
    pub open spec fn live_neighbours(&self, x: int, y: int) -> int {
        (if self.alive_at(x - 1, y) { 1int } else { 0 }) + (if self.alive_at(x + 1, y) {
            1int
        } else {
            0
        }) + (if self.alive_at(x, y - 1) { 1int } else { 0 }) + (if self.alive_at(x, y + 1) {
            1int
        } else {
            0
        })
    }

    /// A grid of `rows` by `cols` cells, each drawn alive or dead at random.
    /// Panics if the operating system's entropy source cannot seed rand's
    /// thread-local generator.
    pub fn build_random(rows: usize, cols: usize) -> (r: GameOfLife)
        ensures
            r.wf(),
            r.height() == rows,
            r.width() == cols,
    {
        let mut alive: Vec<Vec<bool>> = Vec::new();
        let mut i: usize = 0;
        while i < rows
            invariant
                i <= rows,
                alive@.len() == i,
                forall|k: int| 0 <= k < i ==> #[trigger] alive@[k]@.len() == cols,
            decreases rows - i,
        {
            let mut row: Vec<bool> = Vec::new();
            let mut j: usize = 0;
            while j < cols
                invariant
                    j <= cols,
                    row@.len() == j,
                decreases cols - j,
            {
                row.push(random_bool());
                j = j + 1;
            }
            alive.push(row);
            i = i + 1;
        }
        GameOfLife::from_cells(rows, cols, &alive)
    }

    /// A grid of `rows` by `cols` cells in which the cell in row `x`, column
    /// `y` is alive exactly when `alive[x][y]` is true.
    pub fn from_cells(rows: usize, cols: usize, alive: &Vec<Vec<bool>>) -> (r: GameOfLife)
        requires
            alive@.len() == rows,
            forall|k: int| 0 <= k < rows ==> #[trigger] alive@[k]@.len() == cols,
        ensures
            r.wf(),
            r.height() == rows,
            r.width() == cols,
            forall|x: int, y: int|
                0 <= x < rows && 0 <= y < cols ==> #[trigger] r.alive(x, y) == alive@[x]@[y],
    {
        let mut board: Vec<Vec<CellState>> = Vec::new();
        let mut i: usize = 0;
        while i < rows
            invariant
                i <= rows,
                alive@.len() == rows,
                forall|k: int| 0 <= k < rows ==> #[trigger] alive@[k]@.len() == cols,
                board@.len() == i,
                forall|k: int| 0 <= k < i ==> #[trigger] board@[k]@.len() == cols,
                forall|k: int, y: int|
                    0 <= k < i && 0 <= y < cols ==> (#[trigger] board@[k]@[y] == CellState::Alive)
                        == alive@[k]@[y],
            decreases rows - i,
        {
            let mut row: Vec<CellState> = Vec::new();
            let mut j: usize = 0;
            while j < cols
                invariant
                    i < rows,
                    alive@.len() == rows,
                    alive@[i as int]@.len() == cols,
                    j <= cols,
                    row@.len() == j,
                    forall|y: int| 0 <= y < j ==> (#[trigger] row@[y] == CellState::Alive) == alive@[i as int]@[y],
                decreases cols - j,
            {
                if alive[i][j] {
                    row.push(CellState::Alive);
                } else {
                    row.push(CellState::Dead);
                }
                j = j + 1;
            }
            board.push(row);
            i = i + 1;
        }
        GameOfLife { rows, cols, board }
    }

    fn cell_alive(&self, x: usize, y: usize) -> (r: bool)
        requires
            self.wf(),
            x < self.height(),
            y < self.width(),
        ensures
            r == self.alive(x as int, y as int),
    {
        self.board[x][y] == CellState::Alive
    }

    fn count_neighbours(&self, x: usize, y: usize) -> (r: i32)
        requires
            self.wf(),
            x < self.height(),
            y < self.width(),
        ensures
            r == self.live_neighbours(x as int, y as int),
    {
        let mut ret: i32 = 0;
        if x > 0 && self.cell_alive(x - 1, y) {
            ret = ret + 1;
        }
        if x + 1 < self.rows && self.cell_alive(x + 1, y) {
            ret = ret + 1;
        }
        if y > 0 && self.cell_alive(x, y - 1) {
            ret = ret + 1;
        }
        if y + 1 < self.cols && self.cell_alive(x, y + 1) {
            ret = ret + 1;
        }
        ret
    }

    /// Advances the grid one step: every cell takes its next state from the
    /// states of the cells beside it before the step.
    pub fn update(&mut self)
        requires
            old(self).wf(),
        ensures
            final(self).wf(),
            final(self).height() == old(self).height(),
            final(self).width() == old(self).width(),
            forall|x: int, y: int|
                0 <= x < old(self).height() && 0 <= y < old(self).width() ==> #[trigger] final(self).alive(x, y)
                    == next_alive(old(self).alive(x, y), old(self).live_neighbours(x, y)),
    {
        let mut board: Vec<Vec<CellState>> = Vec::new();
        let mut x: usize = 0;
        while x < self.rows
            invariant
                self.wf(),
                x <= self.rows,
                board@.len() == x,
                forall|k: int| 0 <= k < x ==> #[trigger] board@[k]@.len() == self.cols,
                forall|k: int, y: int|
                    0 <= k < x && 0 <= y < self.cols ==> (#[trigger] board@[k]@[y] == CellState::Alive)
                        == next_alive(self.alive(k, y), self.live_neighbours(k, y)),
            decreases self.rows - x,
        {
            let mut row: Vec<CellState> = Vec::new();
            let mut y: usize = 0;
            while y < self.cols
                invariant
                    self.wf(),
                    x < self.rows,
                    y <= self.cols,
                    row@.len() == y,
                    forall|j: int|
                        0 <= j < y ==> (#[trigger] row@[j] == CellState::Alive) == next_alive(
                            self.alive(x as int, j),
                            self.live_neighbours(x as int, j),
                        ),
                decreases self.cols - y,
            {
                let n = self.count_neighbours(x, y);
                let alive = self.cell_alive(x, y);
                let next = if alive {
                    if n == 2 || n == 3 {
                        CellState::Alive
                    } else {
                        CellState::Dead
                    }
                } else if n == 3 {
                    CellState::Alive
                } else {
                    CellState::Dead
                };
                row.push(next);
                y = y + 1;
            }
            board.push(row);
            x = x + 1;
        }
        self.board = board;
    }

    /// Whether the cell in row `x`, column `y` is alive.
    pub fn is_cell_alive(&self, x: usize, y: usize) -> (r: bool)
        requires
            self.wf(),
            x < self.height(),
            y < self.width(),
        ensures
            r == self.alive(x as int, y as int),
    {
        match self.board[x][y] {
            CellState::Alive => true,
            CellState::Dead => false,
        }
    }

    /// The number of rows.
    pub fn rows(&self) -> (r: usize)
        ensures
            r == self.height(),
    {
        self.rows
    }

    /// The number of columns.
    pub fn cols(&self) -> (r: usize)
        ensures
            r == self.width(),
    {
        self.cols
    }
}

/// Relies on rand::random::<bool>: a value drawn from the thread-local
/// generator, of which nothing is promised.
#[verifier::external_body]
fn random_bool() -> bool {
    rand::random::<bool>()
}

} // verus!
