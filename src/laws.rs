use vstd::prelude::*;

use crate::board::{lemma_toggled, Grid};
use crate::geometry::Position;
use crate::model::{ModelView, State};

verus! {

impl ModelView {
    /// The game after clicking each position of `ps` in turn.
    pub open spec fn click_all(self, ps: Seq<Position>) -> ModelView
        decreases ps.len(),
    {
        if ps.len() == 0 {
            self
        } else {
            self.click(ps[0]).click_all(ps.drop_first())
        }
    }
}

/// A click keeps the game well formed and never changes the pattern.
pub proof fn lemma_click_wf(v: ModelView, p: Position)
    requires
        v.wf(),
    ensures
        v.click(p).wf(),
        v.click(p).grid.expected_total() == v.grid.expected_total(),
        v.click(p).grid.region == v.grid.region,
{
    if v.click(p) != v {
        lemma_toggled(v.grid, p.x as int, p.y as int);
    }
}

/// A square outside the region shows a zero mismatch, and clicking it
/// changes nothing.
pub proof fn lemma_outside_region_inert(v: ModelView, p: Position)
    requires
        !v.grid.region.has(p.x as int, p.y as int),
    ensures
        v.shown(p) == 0,
        v.click(p) == v,
{
}

/// Before the first game, a click changes nothing.
pub proof fn lemma_click_before_start(v: ModelView, p: Position)
    requires
        v.state is Initial,
    ensures
        v.click(p) == v,
{
}

/// Two clicks in a row on one square give back the budget and every mark, so
/// every square shows what it showed before; unless the first click won the
/// game, which leaves the second one without effect.
pub proof fn lemma_double_click(v: ModelView, p: Position)
    requires
        v.wf(),
        !(v.state is Playing && v.click(p).state is Won),
    ensures
        v.click(p).click(p).grid == v.grid,
        v.click(p).click(p).remaining_mines == v.remaining_mines,
        forall|q: Position| #[trigger] v.click(p).click(p).shown(q) == v.shown(q),
{
    let w = v.click(p);
    if w != v {
        let x = p.x as int;
        let y = p.y as int;
        assert(w.grid.toggled(x, y).cells =~= v.grid.cells);
    }
}

/// Across any run of clicks, the budget left plus the marks placed stays the
/// number of pattern cells that the game started with.
pub proof fn lemma_budget_conserved(v: ModelView, ps: Seq<Position>)
    requires
        v.wf(),
    ensures
        v.click_all(ps).wf(),
        v.click_all(ps).remaining_mines + v.click_all(ps).grid.placed_total() == v.remaining_mines
            + v.grid.placed_total(),
        v.click_all(ps).grid.expected_total() == v.grid.expected_total(),
    decreases ps.len(),
{
    if ps.len() > 0 {
        lemma_click_wf(v, ps[0]);
        lemma_budget_conserved(v.click(ps[0]), ps.drop_first());
    }
}

/// When every cell of the region is marked exactly where the pattern is,
/// every square shows a zero mismatch.
pub proof fn lemma_matching_is_solved(g: Grid)
    requires
        g.matches_pattern(),
    ensures
        g.solved(),
{
    assert forall|x: int, y: int| #[trigger] g.score(x, y) == 0 by {
        if g.region.has(x, y) {
            assert(g.cell(x, y).actual_mine == g.cell(x, y).expected_mine);
        }
    }
}

/// A click that flips a mark and leaves the marks equal to the pattern with
/// no budget left wins the game, keeping the elapsed time from just before it.
pub proof fn lemma_win_detected(v: ModelView, p: Position)
    requires
        v.wf(),
        v.state is Playing,
        v.grid.region.has(p.x as int, p.y as int),
        v.grid.cell(p.x as int, p.y as int).actual_mine || v.remaining_mines > 0,
        v.click(p).grid.matches_pattern(),
        v.click(p).remaining_mines == 0,
    ensures
        v.click(p).state == (State::Won { elapsed_time: v.elapsed_time }),
{
    lemma_matching_is_solved(v.click(p).grid);
}

} // verus!
