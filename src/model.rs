use std::time::Duration;

use vstd::prelude::*;

use pagurus::random::StdRng;

use crate::board::{clear, index_of, lemma_toggled, loaded_cell, Board, Grid, CELLS};
use crate::geometry::{Position, Region, Size, HEIGHT, WIDTH};
use crate::random::{clock_seeded, default_rng};

verus! {

/// The two board layouts a game can be played on.
#[derive(Debug, Default, Clone, Copy, PartialEq, Eq, Structural)]
pub enum Level {
    Small,
    #[default]
    Large,
}

impl Level {
    pub open spec fn spec_width(self) -> int {
        match self {
            Level::Small => 8,
            Level::Large => 30,
        }
    }

    pub open spec fn spec_height(self) -> int {
        match self {
            Level::Small => 15,
            Level::Large => 30,
        }
    }

    pub open spec fn spec_offset(self) -> Position {
        match self {
            Level::Small => Position { x: 4, y: 7 },
            Level::Large => Position { x: 0, y: 0 },
        }
    }

    /// The region in play on this level.
    pub open spec fn region(self) -> Region {
        Region {
            position: self.spec_offset(),
            size: Size { width: self.spec_width() as u32, height: self.spec_height() as u32 },
        }
    }

    pub fn width(self) -> (r: usize)
        ensures
            r == self.spec_width(),
    {
        match self {
            Level::Small => 8,
            Level::Large => 30,
        }
    }

    pub fn height(self) -> (r: usize)
        ensures
            r == self.spec_height(),
    {
        match self {
            Level::Small => 15,
            Level::Large => 30,
        }
    }

    pub fn offset(self) -> (r: Position)
        ensures
            r == self.spec_offset(),
    {
        match self {
            Level::Small => Position::from_xy(4, 7),
            Level::Large => Position::from_xy(0, 0),
        }
    }
}

/// Where the game stands. A won game keeps the elapsed time, in nanoseconds,
/// at the moment it was won.
#[derive(Debug, Default, Clone, Copy, PartialEq, Eq, Structural)]
pub enum State {
    #[default]
    Initial,
    Playing,
    Won { elapsed_time: u64 },
}

/// The mathematical content of a game. Times are in nanoseconds of the game
/// clock.
pub struct ModelView {
    pub grid: Grid,
    pub remaining_mines: int,
    pub start_time: u64,
    pub elapsed_time: u64,
    pub level: Level,
    pub state: State,
}

impl ModelView {
    /// The board is well formed, and the marks left to place plus the marks
    /// placed make up the pattern cells; before the first game the region
    /// sits at the origin.
    pub open spec fn wf(self) -> bool {
        &&& self.grid.wf()
        &&& self.remaining_mines >= 0
        &&& self.remaining_mines + self.grid.placed_total() == self.grid.expected_total()
        &&& self.state is Initial ==> self.grid.region.position == (Position { x: 0, y: 0 })
    }

    /// The effect of a click on `p`: outside a game in play, outside the
    /// region, or on an unmarked cell with no mark left, nothing changes;
    /// otherwise the mark flips, the budget follows, and the game is won when
    /// the budget is spent and every square shows a zero mismatch.
    pub open spec fn click(self, p: Position) -> ModelView {
        let x = p.x as int;
        let y = p.y as int;
        let blocked = !self.grid.cell(x, y).actual_mine && self.remaining_mines == 0;
        if !(self.state is Playing) || !self.grid.region.has(x, y) || blocked {
            self
        } else {
            let grid = self.grid.toggled(x, y);
            let remaining = if self.grid.cell(x, y).actual_mine {
                self.remaining_mines + 1
            } else {
                self.remaining_mines - 1
            };
            ModelView {
                grid,
                remaining_mines: remaining,
                state: if remaining == 0 && grid.solved() {
                    State::Won { elapsed_time: self.elapsed_time }
                } else {
                    self.state
                },
                ..self
            }
        }
    }

    /// The mismatch shown on square `p`: zero outside the region.
    pub open spec fn shown(self, p: Position) -> int {
        if self.grid.region.has(p.x as int, p.y as int) {
            self.grid.surrounding(p.x as int, p.y as int)
        } else {
            0
        }
    }
}

/// Position `k` of a row-major walk over `w` columns and `h` rows lies in
/// row `k / w` and column `k % w`, both in range.
proof fn lemma_row_major(k: int, w: int, h: int)
    requires
        0 <= k < w * h,
        0 <= w,
        0 <= h,
    ensures
        0 < w,
        0 <= k % w < w,
        0 <= k / w < h,
{
    assert(0 < w) by (nonlinear_arith)
        requires
            0 <= k < w * h,
            0 <= w,
            0 <= h,
    ;
    vstd::arithmetic::div_mod::lemma_fundamental_div_mod(k, w);
    vstd::arithmetic::div_mod::lemma_mod_pos_bound(k, w);
    vstd::arithmetic::div_mod::lemma_div_pos_is_pos(k, w);
    let q = k / w;
    let m = k % w;
    assert(q < h) by (nonlinear_arith)
        requires
            k == w * q + m,
            0 <= m,
            k < w * h,
            0 < w,
    ;
}

/// A game: a random source, the board, the budget of marks, the clock
/// readings, the level and the state. The random source is seeded once and
/// serves layouts that place mines at random; the fixed pattern needs none.
#[derive(Debug, Clone)]
pub struct Model {
    rng: StdRng,
    board: Board,
    remaining_mines: usize,
    start_time: u64,
    elapsed_time: u64,
    level: Level,
    state: State,
}

impl View for Model {
    type V = ModelView;

    closed spec fn view(&self) -> ModelView {
        ModelView {
            grid: self.board@,
            remaining_mines: self.remaining_mines as int,
            start_time: self.start_time,
            elapsed_time: self.elapsed_time,
            level: self.level,
            state: self.state,
        }
    }
}

impl Default for Model {
    /// A model before any game: an empty region at the origin, every cell
    /// clear, no budget, zero times, the large level and the state `Initial`.
    fn default() -> (r: Model)
        ensures
            r.wf(),
            r@.grid.region == (Region { position: Position { x: 0, y: 0 }, size: Size { width: 0, height: 0 } }),
            forall|i: int| 0 <= i < CELLS ==> #[trigger] r@.grid.cells[i] == clear(),
            r@.remaining_mines == 0,
            r@.start_time == 0,
            r@.elapsed_time == 0,
            r@.level == Level::Large,
            r@.state == State::Initial,
    {
        Model {
            rng: default_rng(),
            board: Board::new(Region::new(Position::from_xy(0, 0), Size::from_wh(0, 0))),
            remaining_mines: 0,
            start_time: 0,
            elapsed_time: 0,
            level: Level::Large,
            state: State::Initial,
        }
    }
}

impl Model {
    pub open spec fn wf(&self) -> bool {
        self@.wf()
    }

    /// Seeds the random source from the wall-clock reading `unix_time` and
    /// makes the whole grid the region in play; the game has not begun.
    pub fn initialize(&mut self, unix_time: Duration)
        requires
            old(self).wf(),
            old(self)@.state is Initial,
        ensures
            final(self).wf(),
            final(self)@ == (ModelView {
                grid: Grid {
                    region: Region {
                        position: old(self)@.grid.region.position,
                        size: Size { width: WIDTH as u32, height: HEIGHT as u32 },
                    },
                    ..old(self)@.grid
                },
                ..old(self)@
            }),
    {
        self.rng = clock_seeded(unix_time);
        self.board.region.size = Size::from_wh(WIDTH as u32, HEIGHT as u32);
        proof {
            let g = self@.grid;
            assert forall|x: int, y: int|
                0 <= x < WIDTH && 0 <= y < HEIGHT && !g.region.has(x, y) implies
                #[trigger] g.cells[index_of(x, y)] == clear() by {}
        }
    }

    /// Starts a game on `level` at game time `now`: a fresh board whose region
    /// cells take the hidden pattern, no marks, a budget of one mark per
    /// pattern cell, and the state `Playing`, whatever the state was.
    pub fn start_game(&mut self, level: Level, now: u64)
        requires
            old(self).wf(),
        ensures
            final(self).wf(),
            final(self)@.level == level,
            final(self)@.grid.region == level.region(),
            forall|x: int, y: int|
                0 <= x < WIDTH && 0 <= y < HEIGHT ==> #[trigger] final(self)@.grid.cell(x, y)
                    == loaded_cell(level.region(), x, y),
            final(self)@.remaining_mines == final(self)@.grid.expected_total(),
            final(self)@.grid.placed_total() == 0,
            final(self)@.start_time == now,
            final(self)@.elapsed_time == old(self)@.elapsed_time,
            final(self)@.state == State::Playing,
    {
        self.level = level;
        let region = Region::new(level.offset(), Size::from_wh(level.width() as u32, level.height() as u32));
        let (board, count) = Board::with_pattern(region);
        self.board = board;
        self.remaining_mines = count;
        self.start_time = now;
        self.state = State::Playing;
    }

    pub fn state(&self) -> (r: State)
        ensures
            r == self@.state,
    {
        self.state
    }

    pub fn remaining_mines(&self) -> (r: usize)
        ensures
            r == self@.remaining_mines,
    {
        self.remaining_mines
    }

    /// Game time, in nanoseconds, at which the current game started.
    pub fn start_time(&self) -> (r: u64)
        ensures
            r == self@.start_time,
    {
        self.start_time
    }

    /// Sets the elapsed time to `now` minus the start time; the state,
    /// including the time kept by a won game, is left as it is.
    pub fn update_elapsed_time(&mut self, now: u64)
        requires
            old(self).wf(),
            now >= old(self)@.start_time,
        ensures
            final(self).wf(),
            final(self)@ == (ModelView { elapsed_time: (now - old(self)@.start_time) as u64, ..old(self)@ }),
    {
        self.elapsed_time = now - self.start_time;
    }

    pub fn elapsed_time(&self) -> (r: u64)
        ensures
            r == self@.elapsed_time,
    {
        self.elapsed_time
    }

    /// The mismatch shown on square `p`: pattern cells minus marked cells
    /// around it within the region, and zero for a square outside the region.
    pub fn surrounding_mines_at(&self, p: Position) -> (r: isize)
        requires
            self.wf(),
        ensures
            r == self@.shown(p),
    {
        if self.board.region.contains(&p) {
            self.board.surrounding_mines(p)
        } else {
            0
        }
    }

    /// Every square of the region with its mismatch, row by row from the top
    /// left.
    pub fn surrounding_mines(&self) -> (r: Vec<(Position, isize)>)
        requires
            self.wf(),
        ensures
            r@.len() == self@.grid.region.size.width * self@.grid.region.size.height,
            forall|k: int|
                0 <= k < r@.len() ==> #[trigger] r@[k] == ({
                    let g = self@.grid;
                    let p = Position {
                        x: (g.region.position.x + k % (g.region.size.width as int)) as i32,
                        y: (g.region.position.y + k / (g.region.size.width as int)) as i32,
                    };
                    (p, g.surrounding(p.x as int, p.y as int) as isize)
                }),
    {
        let region = self.board.region;
        let w = region.size.width as usize;
        proof {
            let h = region.size.height as int;
            assert(0 <= w * h <= WIDTH * HEIGHT) by (nonlinear_arith)
                requires
                    0 <= w <= WIDTH,
                    0 <= h <= HEIGHT,
            ;
        }
        let n = w * region.size.height as usize;
        let mut r: Vec<(Position, isize)> = Vec::new();
        let mut k: usize = 0;
        while k < n
            invariant
                self.wf(),
                region == self@.grid.region,
                w == region.size.width,
                n == region.size.width * region.size.height,
                k <= n,
                r@.len() == k,
                forall|j: int|
                    0 <= j < k ==> #[trigger] r@[j] == ({
                        let p = Position {
                            x: (region.position.x + j % (w as int)) as i32,
                            y: (region.position.y + j / (w as int)) as i32,
                        };
                        (p, self@.grid.surrounding(p.x as int, p.y as int) as isize)
                    }),
            decreases n - k,
        {
            proof {
                lemma_row_major(k as int, w as int, region.size.height as int);
            }
            let p = Position { x: region.position.x + (k % w) as i32, y: region.position.y + (k / w) as i32 };
            r.push((p, self.board.surrounding_mines(p)));
            k = k + 1;
        }
        r
    }

    /// Clicks the square `p`; see `ModelView::click`.
    pub fn handle_click(&mut self, position: Position)
        requires
            old(self).wf(),
        ensures
            final(self).wf(),
            final(self)@ == old(self)@.click(position),
    {
        if self.state != State::Playing {
            return;
        }
        if !self.board.region.contains(&position) {
            return;
        }
        let marked = self.board.is_marked(position.x, position.y);
        if !marked && self.remaining_mines == 0 {
            return;
        }
        proof {
            lemma_toggled(self@.grid, position.x as int, position.y as int);
        }
        self.board.toggle(position.x, position.y);
        if marked {
            self.remaining_mines = self.remaining_mines + 1;
        } else {
            self.remaining_mines = self.remaining_mines - 1;
        }
        if self.remaining_mines == 0 && self.board.is_solved() {
            self.state = State::Won { elapsed_time: self.elapsed_time };
        }
    }

    /// Whether the player has marked the cell `p` of the grid.
    pub fn has_mine(&self, p: Position) -> (r: bool)
        requires
            self.wf(),
            0 <= p.x < WIDTH,
            0 <= p.y < HEIGHT,
        ensures
            r == self@.grid.cell(p.x as int, p.y as int).actual_mine,
    {
        self.board.is_marked(p.x, p.y)
    }
}

} // verus!
