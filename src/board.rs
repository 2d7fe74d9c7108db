use vstd::prelude::*;

use crate::geometry::{Position, Region, HEIGHT, WIDTH};
use crate::pattern::{has_pattern_mine, pattern_mine};

verus! {

/// One square of the board: whether it belongs to the hidden pattern, and
/// whether the player has marked it.
#[derive(Debug, Default, Clone, Copy, PartialEq, Eq, Structural)]
pub struct Cell {
    pub expected_mine: bool,
    pub actual_mine: bool,
}

/// Number of cells of the full grid.
pub const CELLS: usize = 900;

/// Index of the cell `(x, y)` in the row-major cell sequence.
pub open spec fn index_of(x: int, y: int) -> int {
    y * WIDTH + x
}

pub open spec fn clear() -> Cell {
    Cell { expected_mine: false, actual_mine: false }
}

/// Number of cells among the first `n` whose pattern flag is set.
pub open spec fn count_expected(cells: Seq<Cell>, n: int) -> int
    decreases n,
{
    if n <= 0 {
        0
    } else {
        count_expected(cells, n - 1) + if cells[n - 1].expected_mine { 1int } else { 0 }
    }
}

/// Number of cells among the first `n` that the player has marked.
pub open spec fn count_placed(cells: Seq<Cell>, n: int) -> int
    decreases n,
{
    if n <= 0 {
        0
    } else {
        count_placed(cells, n - 1) + if cells[n - 1].actual_mine { 1int } else { 0 }
    }
}

/// The mathematical content of a board: its cells, row by row, and the
/// region in play.
pub struct Grid {
    pub cells: Seq<Cell>,
    pub region: Region,
}

impl Grid {
    /// Cells outside the region carry no flag, and the region fits the grid.
    pub open spec fn wf(self) -> bool {
        &&& self.cells.len() == CELLS
        &&& self.region.within_grid()
        &&& forall|x: int, y: int|
            0 <= x < WIDTH && 0 <= y < HEIGHT && !self.region.has(x, y)
                ==> #[trigger] self.cells[index_of(x, y)] == clear()
    }

    pub open spec fn cell(self, x: int, y: int) -> Cell {
        self.cells[index_of(x, y)]
    }

    /// What the cell `(x, y)` adds to a mismatch count: +1 for a pattern cell,
    /// -1 for a marked cell, nothing outside the region.
    pub open spec fn score(self, x: int, y: int) -> int {
        if self.region.has(x, y) {
            (if self.cell(x, y).expected_mine { 1int } else { 0 }) - (if self.cell(x, y).actual_mine { 1int } else { 0 })
        } else {
            0
        }
    }

    pub open spec fn row_score(self, x: int, y: int) -> int {
        self.score(x - 1, y) + self.score(x, y) + self.score(x + 1, y)
    }

    /// Pattern cells minus marked cells in the 3x3 square centred on
    /// `(x, y)`, counting only cells of the region.
    pub open spec fn surrounding(self, x: int, y: int) -> int {
        self.row_score(x, y - 1) + self.row_score(x, y) + self.row_score(x, y + 1)
    }

    /// Every square of the region shows a zero mismatch.
    pub open spec fn solved(self) -> bool {
        forall|x: int, y: int| #[trigger] self.region.has(x, y) ==> self.surrounding(x, y) == 0
    }

    /// Every cell of the region is marked exactly where the pattern is.
    pub open spec fn matches_pattern(self) -> bool {
        forall|x: int, y: int|
            #[trigger] self.region.has(x, y) ==> self.cell(x, y).actual_mine == self.cell(x, y).expected_mine
    }

    pub open spec fn toggled(self, x: int, y: int) -> Grid {
        let c = self.cell(x, y);
        Grid {
            cells: self.cells.update(index_of(x, y), Cell { actual_mine: !c.actual_mine, ..c }),
            region: self.region,
        }
    }

    pub open spec fn expected_total(self) -> int {
        count_expected(self.cells, CELLS as int)
    }

    pub open spec fn placed_total(self) -> int {
        count_placed(self.cells, CELLS as int)
    }
}

/// Contribution of the `k`-th cell (row-major, `0 <= k < 9`) of the 3x3
/// square centred on `(x, y)`.
pub open spec fn window_score(g: Grid, x: int, y: int, k: int) -> int {
    g.score(x + k % 3 - 1, y + k / 3 - 1)
}

/// Sum of the first `k` contributions of the 3x3 square centred on `(x, y)`.
pub open spec fn window_partial(g: Grid, x: int, y: int, k: int) -> int
    decreases k,
{
    if k <= 0 {
        0
    } else {
        window_partial(g, x, y, k - 1) + window_score(g, x, y, k - 1)
    }
}

pub proof fn lemma_window_full(g: Grid, x: int, y: int)
    ensures
        window_partial(g, x, y, 9) == g.surrounding(x, y),
{
    reveal_with_fuel(window_partial, 10);
}

/// The cell that a fresh board of `region` holds at `(x, y)`.
pub open spec fn loaded_cell(region: Region, x: int, y: int) -> Cell {
    Cell { expected_mine: region.has(x, y) && pattern_mine(x, y), actual_mine: false }
}

proof fn lemma_index(x: int, y: int)
    requires
        0 <= x < WIDTH,
        0 <= y,
    ensures
        index_of(x, y) % (WIDTH as int) == x,
        index_of(x, y) / (WIDTH as int) == y,
{
    vstd::arithmetic::div_mod::lemma_fundamental_div_mod_converse(index_of(x, y), WIDTH as int, y, x);
}

proof fn lemma_counts_agree(s: Seq<Cell>, t: Seq<Cell>, n: int)
    requires
        0 <= n <= s.len(),
        n <= t.len(),
        forall|i: int| 0 <= i < n ==> s[i] == t[i],
    ensures
        count_expected(s, n) == count_expected(t, n),
        count_placed(s, n) == count_placed(t, n),
    decreases n,
{
    if n > 0 {
        lemma_counts_agree(s, t, n - 1);
    }
}

/// Replacing one cell changes each count by what the two cells differ in.
pub proof fn lemma_counts_update(s: Seq<Cell>, j: int, c: Cell, n: int)
    requires
        0 <= j < n <= s.len(),
    ensures
        count_expected(s.update(j, c), n) == count_expected(s, n)
            - (if s[j].expected_mine { 1int } else { 0 }) + (if c.expected_mine { 1int } else { 0 }),
        count_placed(s.update(j, c), n) == count_placed(s, n)
            - (if s[j].actual_mine { 1int } else { 0 }) + (if c.actual_mine { 1int } else { 0 }),
    decreases n,
{
    if n - 1 == j {
        lemma_counts_agree(s.update(j, c), s, j);
    } else {
        lemma_counts_update(s, j, c, n - 1);
    }
}

pub proof fn lemma_counts_bounded(s: Seq<Cell>, n: int)
    requires
        0 <= n <= s.len(),
    ensures
        0 <= count_expected(s, n) <= n,
        0 <= count_placed(s, n) <= n,
    decreases n,
{
    if n > 0 {
        lemma_counts_bounded(s, n - 1);
    }
}

/// Flipping a mark inside the region keeps the grid well formed, leaves the
/// pattern count alone and moves the mark count by one.
pub proof fn lemma_toggled(g: Grid, x: int, y: int)
    requires
        g.wf(),
        g.region.has(x, y),
    ensures
        g.toggled(x, y).wf(),
        g.toggled(x, y).expected_total() == g.expected_total(),
        g.toggled(x, y).placed_total() == g.placed_total() + if g.cell(x, y).actual_mine { -1int } else { 1 },
        0 <= g.placed_total() <= CELLS,
        0 <= g.expected_total() <= CELLS,
{
    let t = g.toggled(x, y);
    let c = g.cell(x, y);
    lemma_index(x, y);
    lemma_counts_bounded(g.cells, CELLS as int);
    lemma_counts_update(g.cells, index_of(x, y), Cell { actual_mine: !c.actual_mine, ..c }, CELLS as int);
    assert forall|xx: int, yy: int| 0 <= xx < WIDTH && 0 <= yy < HEIGHT && !t.region.has(xx, yy) implies
        #[trigger] t.cells[index_of(xx, yy)] == clear() by {
        lemma_index(xx, yy);
    }
}

proof fn lemma_counts_clear(s: Seq<Cell>, n: int)
    requires
        0 <= n <= s.len(),
        forall|i: int| 0 <= i < n ==> #[trigger] s[i] == clear(),
    ensures
        count_expected(s, n) == 0,
        count_placed(s, n) == 0,
    decreases n,
{
    if n > 0 {
        lemma_counts_clear(s, n - 1);
    }
}

/// The full grid of cells with the region that is in play.
#[derive(Debug, Clone)]
pub struct Board {
    pub cells: Vec<Cell>,
    pub region: Region,
}

impl View for Board {
    type V = Grid;

    open spec fn view(&self) -> Grid {
        Grid { cells: self.cells@, region: self.region }
    }
}

impl Board {
    /// A board with every cell clear and the given region in play.
    pub fn new(region: Region) -> (b: Board)
        requires
            region.within_grid(),
        ensures
            b@.wf(),
            b@.region == region,
            forall|i: int| 0 <= i < CELLS ==> #[trigger] b@.cells[i] == clear(),
            b@.expected_total() == 0,
            b@.placed_total() == 0,
    {
        let cells: Vec<Cell> = vec![Cell { expected_mine: false, actual_mine: false }; CELLS];
        proof {
            lemma_counts_clear(cells@, CELLS as int);
        }
        Board { cells, region }
    }

    /// Pattern cells minus marked cells in the 3x3 square centred on `p`,
    /// counting only cells of the region.
    pub fn surrounding_mines(&self, p: Position) -> (r: isize)
        requires
            self@.wf(),
        ensures
            r as int == self@.surrounding(p.x as int, p.y as int),
            -9 <= r <= 9,
    {
        let mut diff: isize = 0;
        let mut k: usize = 0;
        while k < 9
            invariant
                self@.wf(),
                k <= 9,
                diff as int == window_partial(self@, p.x as int, p.y as int, k as int),
                -(k as int) <= diff <= k,
            decreases 9 - k,
        {
            let x = p.x as i64 + (k % 3) as i64 - 1;
            let y = p.y as i64 + (k / 3) as i64 - 1;
            if self.region.contains_xy(x, y) {
                let cell = self.cells[(y * 30 + x) as usize];
                if cell.expected_mine {
                    diff = diff + 1;
                }
                if cell.actual_mine {
                    diff = diff - 1;
                }
            }
            k = k + 1;
        }
        proof {
            lemma_window_full(self@, p.x as int, p.y as int);
        }
        diff
    }
    /// A board of `region` whose pattern cells are loaded from the hidden
    /// pattern, with no cell marked; also returns the number of pattern cells.
    pub fn with_pattern(region: Region) -> (res: (Board, usize))
        requires
            region.within_grid(),
        ensures
            res.0@.wf(),
            res.0@.region == region,
            forall|x: int, y: int|
                0 <= x < WIDTH && 0 <= y < HEIGHT ==> #[trigger] res.0@.cell(x, y) == loaded_cell(region, x, y),
            res.1 == res.0@.expected_total(),
            res.0@.placed_total() == 0,
    {
        let mut board = Board::new(region);
        let mut count: usize = 0;
        let mut i: usize = 0;
        while i < CELLS
            invariant
                board@.region == region,
                region.within_grid(),
                board.cells@.len() == CELLS,
                i <= CELLS,
                forall|j: int| i <= j < CELLS ==> #[trigger] board.cells@[j] == clear(),
                forall|j: int|
                    0 <= j < i ==> #[trigger] board.cells@[j] == loaded_cell(region, j % (WIDTH as int), j / (WIDTH as int)),
                count as int == count_expected(board.cells@, i as int),
                count_placed(board.cells@, i as int) == 0,
                count <= i,
            decreases CELLS - i,
        {
            let x: usize = i % WIDTH;
            let y: usize = i / WIDTH;
            proof {
                lemma_counts_bounded(board.cells@, i as int);
            }
            let old_cells = Ghost(board.cells@);
            if region.contains_xy(x as i64, y as i64) && has_pattern_mine(x, y) {
                board.cells.set(i, Cell { expected_mine: true, actual_mine: false });
                count = count + 1;
            }
            proof {
                lemma_counts_agree(board.cells@, old_cells@, i as int);
            }
            i = i + 1;
        }
        proof {
            assert forall|x: int, y: int| 0 <= x < WIDTH && 0 <= y < HEIGHT implies
                #[trigger] board@.cell(x, y) == loaded_cell(region, x, y) by {
                lemma_index(x, y);
            }
            assert forall|x: int, y: int| 0 <= x < WIDTH && 0 <= y < HEIGHT && !board@.region.has(x, y) implies
                #[trigger] board@.cells[index_of(x, y)] == clear() by {
                lemma_index(x, y);
            }
        }
        (board, count)
    }

    /// Flips the player's mark on the cell `(x, y)` of the region.
    pub fn toggle(&mut self, x: i32, y: i32)
        requires
            old(self)@.wf(),
            old(self)@.region.has(x as int, y as int),
        ensures
            final(self)@ == old(self)@.toggled(x as int, y as int),
            final(self)@.wf(),
    {
        let i: usize = (y as usize) * WIDTH + (x as usize);
        let c = self.cells[i];
        self.cells.set(i, Cell { expected_mine: c.expected_mine, actual_mine: !c.actual_mine });
        proof {
            lemma_toggled(old(self)@, x as int, y as int);
        }
    }

    /// Whether the player has marked the cell `(x, y)` of the grid.
    pub fn is_marked(&self, x: i32, y: i32) -> (r: bool)
        requires
            self@.wf(),
            0 <= x < WIDTH,
            0 <= y < HEIGHT,
        ensures
            r == self@.cell(x as int, y as int).actual_mine,
    {
        self.cells[(y as usize) * WIDTH + (x as usize)].actual_mine
    }

    /// Whether every square of the region shows a zero mismatch.
    pub fn is_solved(&self) -> (r: bool)
        requires
            self@.wf(),
        ensures
            r == self@.solved(),
    {
        let x0 = self.region.position.x;
        let y0 = self.region.position.y;
        let x1 = x0 + self.region.size.width as i32;
        let y1 = y0 + self.region.size.height as i32;
        let mut y: i32 = y0;
        while y < y1
            invariant
                self@.wf(),
                x0 == self.region.position.x,
                y0 == self.region.position.y,
                x1 == x0 + self.region.size.width,
                y1 == y0 + self.region.size.height,
                y0 <= y <= y1,
                forall|xx: int, yy: int|
                    #[trigger] self.region.has(xx, yy) && yy < y ==> self@.surrounding(xx, yy) == 0,
            decreases y1 - y,
        {
            let mut x: i32 = x0;
            while x < x1
                invariant
                    self@.wf(),
                    x0 == self.region.position.x,
                    y0 == self.region.position.y,
                    x1 == x0 + self.region.size.width,
                    y1 == y0 + self.region.size.height,
                    y0 <= y < y1,
                    x0 <= x <= x1,
                    forall|xx: int, yy: int|
                        #[trigger] self.region.has(xx, yy) && (yy < y || (yy == y && xx < x))
                            ==> self@.surrounding(xx, yy) == 0,
                decreases x1 - x,
            {
                let m = self.surrounding_mines(Position { x, y });
                if m != 0 {
                    assert(self.region.has(x as int, y as int));
                    return false;
                }
                assert forall|xx: int, yy: int|
                    #[trigger] self.region.has(xx, yy) && (yy < y || (yy == y && xx < x + 1)) implies
                    self@.surrounding(xx, yy) == 0 by {
                    if yy == y && xx == x {
                        assert(m as int == self@.surrounding(xx, yy));
                    }
                }
                x = x + 1;
            }
            y = y + 1;
        }
        true
    }
}


} // verus!
