//! Global invariants of the game, stated and proved once over the
//! mathematical state.

use vstd::prelude::*;

use crate::game::{covers, in_grid, is_reversal, wrap1, GameView};

verus! {

/// Wrap invariant: from any head position on the grid and any step of at
/// most one cell per axis, the wrapped coordinate stays on the grid.
pub proof fn lemma_wrap_in_range(x: int, delta: int, grid: int)
    requires
        0 <= x < grid,
        -1 <= delta <= 1,
    ensures
        0 <= wrap1(x, delta, grid) < grid,
{
}

/// Wrap invariant, lifted to whole states: in every well-formed state the
/// cell the next tick moves the head to lies on the grid, whichever of the
/// four directions is driving.
pub proof fn lemma_next_head_in_grid(v: GameView)
    requires
        v.wf(),
    ensures
        in_grid(v.next_head(), v.grid),
{
}

/// No-reversal invariant: in every well-formed state — and the public
/// operations keep every state well-formed, whatever sequence of direction
/// changes arrives between ticks — the direction that will drive the next
/// tick is not the exact negation of the direction that drove the
/// previous one.
pub proof fn lemma_no_reversal(v: GameView)
    requires
        v.wf(),
    ensures
        !is_reversal(v.dir, v.last_dir),
{
}

/// Food–snake disjointness: in every well-formed state whose snake leaves
/// at least one cell of the grid free, the food cell is not a body segment.
/// (When the snake has come to occupy the whole grid there is no free cell
/// for the food to sit on; the game ends on the tick that fills the grid.)
pub proof fn lemma_food_snake_disjoint(v: GameView)
    requires
        v.wf(),
        !covers(v.snake, v.grid),
    ensures
        !v.snake.contains(v.food),
{
}

} // verus!
