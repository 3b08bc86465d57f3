//! The Snake game state machine.
//!
//! A snake moves on a square toroidal grid: stepping past an edge re-enters
//! on the opposite side. Each tick advances the head one cell in the driving
//! direction; landing on the food cell grows the snake and raises the score,
//! landing on the snake's own body freezes the game for good.

use vstd::prelude::*;

verus! {

/// One cell of the grid, addressed by column `x` and row `y`.
#[derive(Clone, Copy, PartialEq, Eq, Structural, Debug)]
pub struct Cell {
    pub x: u32,
    pub y: u32,
}

/// A movement vector, one of the four cardinal unit vectors while the game
/// is driving a snake.
#[derive(Clone, Copy, PartialEq, Eq, Structural, Debug)]
pub struct Dir {
    pub dx: i32,
    pub dy: i32,
}

/// The mathematical state of a game: what the executable state means.
pub ghost struct GameView {
    /// Side length of the square grid.
    pub grid: int,
    /// Body segments, head first, tail last.
    pub snake: Seq<Cell>,
    /// The direction that will drive the next tick.
    pub dir: Dir,
    /// The direction that drove the most recent tick.
    pub last_dir: Dir,
    /// The food cell.
    pub food: Cell,
    /// Whether the game has reached its terminal state.
    pub over: bool,
    /// Number of food cells eaten so far.
    pub score: int,
}

/// Is `d` one of the four cardinal unit vectors?
pub open spec fn is_cardinal(d: Dir) -> bool {
    ||| (d.dx == 1 && d.dy == 0)
    ||| (d.dx == -1 && d.dy == 0)
    ||| (d.dx == 0 && d.dy == 1)
    ||| (d.dx == 0 && d.dy == -1)
}

/// Is `a` the exact negation of `b`?
pub open spec fn is_reversal(a: Dir, b: Dir) -> bool {
    a.dx == -b.dx && a.dy == -b.dy
}

/// Does `c` lie on a grid of side length `grid`?
pub open spec fn in_grid(c: Cell, grid: int) -> bool {
    c.x < grid && c.y < grid
}

/// One coordinate after a step of `delta`, wrapped toroidally into `[0, grid)`.
pub open spec fn wrap1(x: int, delta: int, grid: int) -> int {
    let t = x + delta;
    if t < 0 {
        grid - 1
    } else if t >= grid {
        0
    } else {
        t
    }
}

/// The cell one step from `c` in direction `d`, wrapped on both axes.
pub open spec fn step_cell(c: Cell, d: Dir, grid: int) -> Cell {
    Cell {
        x: wrap1(c.x as int, d.dx as int, grid) as u32,
        y: wrap1(c.y as int, d.dy as int, grid) as u32,
    }
}

/// Does `snake` occupy every cell of the grid?
pub open spec fn covers(snake: Seq<Cell>, grid: int) -> bool {
    forall|c: Cell| #[trigger] in_grid(c, grid) ==> snake.contains(c)
}

impl GameView {
    /// Well-formedness: every state reachable through the public operations
    /// satisfies this.
    pub open spec fn wf(self) -> bool {
        &&& 2 <= self.grid <= u32::MAX
        &&& 1 <= self.snake.len()
        &&& forall|i: int| 0 <= i < self.snake.len() ==> in_grid(#[trigger] self.snake[i], self.grid)
        &&& forall|i: int, j: int|
            0 <= i < j < self.snake.len() ==> self.snake[i] != self.snake[j]
        &&& is_cardinal(self.dir)
        &&& is_cardinal(self.last_dir)
        &&& !is_reversal(self.dir, self.last_dir)
        &&& in_grid(self.food, self.grid)
        &&& self.snake.contains(self.food) ==> covers(self.snake, self.grid)
        &&& self.score == self.snake.len() - 1
    }

    /// The cell the head moves to on the next non-terminal tick.
    pub open spec fn next_head(self) -> Cell {
        step_cell(self.snake[0], self.dir, self.grid)
    }
}

/// The cell the snake starts on: the grid center.
pub open spec fn start_cell(grid: int) -> Cell {
    Cell { x: (grid / 2) as u32, y: (grid / 2) as u32 }
}

/// The fixed cell the first food is placed on. Derived off the center; when
/// the derived cell would coincide with the center (small grids), the origin
/// serves instead, so the food never starts on the snake.
pub open spec fn initial_food(grid: int) -> Cell {
    if grid / 3 == grid / 2 {
        Cell { x: 0, y: 0 }
    } else {
        Cell { x: (grid / 3) as u32, y: (grid / 3) as u32 }
    }
}

/// A game of Snake. All state is owned here and changes only through
/// [`SnakeGame::change_direction`] and [`SnakeGame::update`]; rendering is
/// the host's business and works through the read accessors.
pub struct SnakeGame {
    grid_size: u32,
    snake: Vec<Cell>,
    dir: Dir,
    last_dir: Dir,
    food: Cell,
    game_over: bool,
    score: usize,
    rng: u64,
}

impl View for SnakeGame {
    type V = GameView;

    closed spec fn view(&self) -> GameView {
        GameView {
            grid: self.grid_size as int,
            snake: self.snake@,
            dir: self.dir,
            last_dir: self.last_dir,
            food: self.food,
            over: self.game_over,
            score: self.score as int,
        }
    }
}

impl SnakeGame {
    /// Start a game on a `grid_size × grid_size` grid: a snake of length one
    /// at the center, driving right, the food on its fixed starting cell,
    /// score zero. `seed` feeds the sampler that places food later on.
    ///
    /// A one-cell grid could not hold both the snake and the food, so the
    /// grid must measure at least two cells per side.
    pub fn new(grid_size: u32, seed: u64) -> (game: SnakeGame)
        requires
            2 <= grid_size,
        ensures
            game@.wf(),
            game@.grid == grid_size as int,
            game@.snake == seq![start_cell(grid_size as int)],
            game@.dir == (Dir { dx: 1, dy: 0 }),
            game@.last_dir == (Dir { dx: 1, dy: 0 }),
            game@.food == initial_food(grid_size as int),
            !game@.over,
            game@.score == 0,
    {
        let center = Cell { x: grid_size / 2, y: grid_size / 2 };
        let mut snake: Vec<Cell> = Vec::new();
        snake.push(center);
        let third = grid_size / 3;
        let food = if third == grid_size / 2 {
            Cell { x: 0, y: 0 }
        } else {
            Cell { x: third, y: third }
        };
        let game = SnakeGame {
            grid_size,
            snake,
            dir: Dir { dx: 1, dy: 0 },
            last_dir: Dir { dx: 1, dy: 0 },
            food,
            game_over: false,
            score: 0,
            rng: seed,
        };
        proof {
            assert(game@.snake =~= seq![start_cell(grid_size as int)]);
            assert(!game@.snake.contains(game@.food));
        }
        game
    }

    /// Has the game reached its terminal state?
    pub fn is_game_over(&self) -> (r: bool)
        ensures
            r == self@.over,
    {
        self.game_over
    }

    /// The current score: one point per food cell eaten.
    pub fn score(&self) -> (r: usize)
        ensures
            r as int == self@.score,
    {
        self.score
    }

    /// The number of body segments.
    pub fn snake_len(&self) -> (r: usize)
        ensures
            r == self@.snake.len(),
    {
        self.snake.len()
    }

    /// The head cell.
    pub fn head(&self) -> (r: Cell)
        requires
            self@.snake.len() >= 1,
        ensures
            r == self@.snake[0],
    {
        self.snake[0]
    }

    /// The food cell.
    pub fn food_cell(&self) -> (r: Cell)
        ensures
            r == self@.food,
    {
        self.food
    }

    /// The direction that will drive the next tick.
    pub fn direction(&self) -> (r: Dir)
        ensures
            r == self@.dir,
    {
        self.dir
    }

    /// The side length of the grid.
    pub fn grid_size(&self) -> (r: u32)
        ensures
            r as int == self@.grid,
    {
        self.grid_size
    }

    /// All body segments, head first, as a fresh vector.
    pub fn snake_cells(&self) -> (r: Vec<Cell>)
        ensures
            r@ == self@.snake,
    {
        let mut out: Vec<Cell> = Vec::new();
        let mut i: usize = 0;
        while i < self.snake.len()
            invariant
                i <= self.snake.len(),
                out@ == self.snake@.subrange(0, i as int),
            decreases self.snake.len() - i,
        {
            out.push(self.snake[i]);
            proof {
                assert(out@ =~= self.snake@.subrange(0, i + 1 as int));
            }
            i = i + 1;
        }
        proof {
            assert(out@ =~= self.snake@);
        }
        out
    }

    /// Change the driving direction. Only the four cardinal unit vectors are
    /// accepted, and a vector that would exactly reverse the direction the
    /// previous tick moved in is ignored, so the head can never step straight
    /// back into the segment behind it — not even through a quick pair of
    /// turns between two ticks. Any other vector is ignored as well, a
    /// hardening over the classic permissive rule, which would let a
    /// non-unit vector drive multi-cell jumps. Once the game is over the
    /// call has no effect.
    pub fn change_direction(&mut self, dx: i32, dy: i32)
        requires
            old(self)@.wf(),
        ensures
            final(self)@.wf(),
            final(self)@.grid == old(self)@.grid,
            final(self)@.snake == old(self)@.snake,
            final(self)@.food == old(self)@.food,
            final(self)@.over == old(self)@.over,
            final(self)@.score == old(self)@.score,
            final(self)@.last_dir == old(self)@.last_dir,
            final(self)@.dir == ({
                let d = Dir { dx, dy };
                if !old(self)@.over && is_cardinal(d) && !is_reversal(d, old(self)@.last_dir) {
                    d
                } else {
                    old(self)@.dir
                }
            }),
    {
        if self.game_over {
            return;
        }
        let cardinal = (dx == 1 && dy == 0) || (dx == -1 && dy == 0) || (dx == 0 && dy == 1)
            || (dx == 0 && dy == -1);
        if cardinal && !(dx == -self.last_dir.dx && dy == -self.last_dir.dy) {
            self.dir = Dir { dx, dy };
        }
    }

    /// Advance the game by one tick: move the head one cell, wrapping at the
    /// edges; freeze the game on self-collision; grow and re-place the food
    /// when the head lands on it, otherwise drop the tail. A tick on a
    /// finished game changes nothing.
    pub fn update(&mut self)
        requires
            old(self)@.wf(),
        ensures
            final(self)@.wf(),
            final(self)@.grid == old(self)@.grid,
            old(self)@.over ==> final(self)@ == old(self)@,
            !old(self)@.over && old(self)@.snake.contains(old(self)@.next_head()) ==> {
                &&& final(self)@.over
                &&& final(self)@.snake == old(self)@.snake
                &&& final(self)@.food == old(self)@.food
                &&& final(self)@.score == old(self)@.score
                &&& final(self)@.dir == old(self)@.dir
                &&& final(self)@.last_dir == old(self)@.last_dir
            },
            !old(self)@.over && !old(self)@.snake.contains(old(self)@.next_head())
                && old(self)@.next_head() == old(self)@.food ==> {
                &&& final(self)@.snake == old(self)@.snake.insert(0, old(self)@.next_head())
                &&& final(self)@.snake.len() == old(self)@.snake.len() + 1
                &&& final(self)@.score == old(self)@.score + 1
                &&& final(self)@.dir == old(self)@.dir
                &&& final(self)@.last_dir == old(self)@.dir
                &&& (covers(final(self)@.snake, old(self)@.grid) ==> final(self)@.over)
                &&& (!covers(final(self)@.snake, old(self)@.grid) ==> {
                    &&& !final(self)@.over
                    &&& in_grid(final(self)@.food, old(self)@.grid)
                    &&& !final(self)@.snake.contains(final(self)@.food)
                })
            },
            !old(self)@.over && !old(self)@.snake.contains(old(self)@.next_head())
                && old(self)@.next_head() != old(self)@.food ==> {
                &&& final(self)@.snake == old(self)@.snake.insert(0, old(self)@.next_head())
                    .drop_last()
                &&& final(self)@.snake.len() == old(self)@.snake.len()
                &&& final(self)@.food == old(self)@.food
                &&& final(self)@.score == old(self)@.score
                &&& !final(self)@.over
                &&& final(self)@.dir == old(self)@.dir
                &&& final(self)@.last_dir == old(self)@.dir
            },
    {
        if self.game_over {
            return;
        }
        let head = self.snake[0];
        let nh = Cell {
            x: wrap_step(head.x, self.dir.dx, self.grid_size),
            y: wrap_step(head.y, self.dir.dy, self.grid_size),
        };
        proof {
            assert(nh == old(self)@.next_head());
        }
        if contains_cell(&self.snake, nh) {
            self.game_over = true;
            return;
        }
        let old_len = self.snake.len();
        self.snake.insert(0, nh);
        self.last_dir = self.dir;
        proof {
            let s0 = old(self)@.snake;
            let s1 = self@.snake;
            assert(s1 =~= seq![nh] + s0);
            assert forall|k: int| 0 <= k < s0.len() implies s0[k] != nh by {
                if s0[k] == nh {
                    assert(s0.contains(nh));
                }
            }
            assert forall|i: int, j: int| 0 <= i < j < s1.len() implies s1[i] != s1[j] by {
                assert(s1[j] == s0[j - 1]);
                if i > 0 {
                    assert(s1[i] == s0[i - 1]);
                }
            }
            assert forall|i: int| 0 <= i < s1.len() implies in_grid(
                #[trigger] s1[i],
                old(self)@.grid,
            ) by {
                if i > 0 {
                    assert(s1[i] == s0[i - 1]);
                }
            }
        }
        if nh == self.food {
            self.score = old_len;
            self.spawn_food();
        } else {
            self.snake.pop();
            proof {
                let s0 = old(self)@.snake;
                let s1 = s0.insert(0, nh);
                let s2 = self@.snake;
                assert(s2 =~= s1.drop_last());
                assert(!covers(s0, old(self)@.grid)) by {
                    assert(in_grid(nh, old(self)@.grid));
                }
                assert(!s2.contains(old(self)@.food)) by {
                    if s2.contains(old(self)@.food) {
                        let k = choose|k: int|
                            0 <= k < s2.len() && s2[k] == old(self)@.food;
                        if k == 0 {
                            assert(s1[0] == nh);
                        } else {
                            assert(s2[k] == s1[k] && s1[k] == s0[k - 1]);
                            assert(s0.contains(old(self)@.food));
                        }
                    }
                }
            }
        }
    }

    /// Re-place the food on a cell the snake does not occupy. A bounded
    /// number of pseudo-random cells is tried first; if all of them are
    /// taken, a full sweep of the grid finds a free cell instead, so the
    /// search always terminates. Only when the snake occupies every cell of
    /// the grid is there nothing to find, and the game ends there.
    fn spawn_food(&mut self)
        requires
            2 <= old(self)@.grid <= u32::MAX,
        ensures
            final(self)@.grid == old(self)@.grid,
            final(self)@.snake == old(self)@.snake,
            final(self)@.dir == old(self)@.dir,
            final(self)@.last_dir == old(self)@.last_dir,
            final(self)@.score == old(self)@.score,
            !covers(old(self)@.snake, old(self)@.grid) ==> {
                &&& final(self)@.over == old(self)@.over
                &&& in_grid(final(self)@.food, old(self)@.grid)
                &&& !old(self)@.snake.contains(final(self)@.food)
            },
            covers(old(self)@.snake, old(self)@.grid) ==> {
                &&& final(self)@.over
                &&& final(self)@.food == old(self)@.food
            },
    {
        let mut tries: u32 = 0;
        while tries < 64
            invariant
                self@ == old(self)@,
                2 <= self@.grid <= u32::MAX,
            decreases 64 - tries,
        {
            let fx = self.rand_below();
            let fy = self.rand_below();
            let c = Cell { x: fx, y: fy };
            if !contains_cell(&self.snake, c) {
                self.food = c;
                return;
            }
            tries = tries + 1;
        }
        match self.first_free() {
            Some(c) => {
                self.food = c;
            },
            None => {
                self.game_over = true;
            },
        }
    }

    /// A pseudo-random column or row index, uniform enough for food
    /// placement: the next state of a linear congruential sequence, reduced
    /// into `[0, grid_size)`.
    fn rand_below(&mut self) -> (r: u32)
        requires
            1 <= old(self)@.grid,
        ensures
            final(self)@ == old(self)@,
            (r as int) < old(self)@.grid,
    {
        let next: u64 = ((self.rng as u128 * 6364136223846793005u128 + 1442695040888963407u128)
            % 0x1_0000_0000_0000_0000u128) as u64;
        self.rng = next;
        ((next >> 32) % (self.grid_size as u64)) as u32
    }

    /// The first free cell of the grid in column-major order, or `None`
    /// when the snake occupies every cell.
    fn first_free(&self) -> (r: Option<Cell>)
        requires
            1 <= self@.grid <= u32::MAX,
        ensures
            match r {
                Some(c) => in_grid(c, self@.grid) && !self@.snake.contains(c),
                None => covers(self@.snake, self@.grid),
            },
    {
        let g = self.grid_size;
        let mut x: u32 = 0;
        while x < g
            invariant
                x <= g,
                g as int == self@.grid,
                forall|c: Cell| #[trigger] in_grid(c, g as int) && c.x < x
                    ==> self@.snake.contains(c),
            decreases g - x,
        {
            let mut y: u32 = 0;
            while y < g
                invariant
                    y <= g,
                    x < g,
                    g as int == self@.grid,
                    forall|yy: u32| yy < y ==> #[trigger] self@.snake.contains(Cell { x, y: yy }),
                decreases g - y,
            {
                let c = Cell { x, y };
                if !contains_cell(&self.snake, c) {
                    return Some(c);
                }
                y = y + 1;
            }
            proof {
                assert forall|c: Cell| #[trigger] in_grid(c, g as int) && c.x < x + 1
                    implies self@.snake.contains(c) by {
                    if c.x == x {
                        assert(c == Cell { x, y: c.y });
                        assert(self@.snake.contains(Cell { x, y: c.y }));
                    }
                }
            }
            x = x + 1;
        }
        None
    }
}

/// Does the vector hold this cell?
fn contains_cell(v: &Vec<Cell>, c: Cell) -> (r: bool)
    ensures
        r == v@.contains(c),
{
    let mut i: usize = 0;
    while i < v.len()
        invariant
            i <= v@.len(),
            forall|j: int| 0 <= j < i ==> v@[j] != c,
        decreases v@.len() - i,
    {
        if v[i] == c {
            return true;
        }
        i = i + 1;
    }
    false
}

/// One coordinate after a toroidally wrapped step.
fn wrap_step(x: u32, delta: i32, grid: u32) -> (r: u32)
    requires
        1 <= grid,
        x < grid,
        -1 <= delta <= 1,
    ensures
        r as int == wrap1(x as int, delta as int, grid as int),
        r < grid,
{
    let t: i64 = x as i64 + delta as i64;
    if t < 0 {
        grid - 1
    } else if t >= grid as i64 {
        0
    } else {
        t as u32
    }
}

} // verus!
