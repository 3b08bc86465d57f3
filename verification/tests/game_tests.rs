use snake_core::game::{Cell, Dir, SnakeGame};

/// Drive one tick toward the food, never requesting a reversal and changing
/// direction at most once per tick, and check the state after the tick.
fn step_toward_food(g: &mut SnakeGame) {
    let h = g.head();
    let f = g.food_cell();
    let d = g.direction();
    let (mut dx, mut dy) = if f.x != h.x {
        (if f.x > h.x { 1 } else { -1 }, 0)
    } else {
        (0, if f.y > h.y { 1 } else { -1 })
    };
    if dx == -d.dx && dy == -d.dy {
        // The food lies straight behind: dodge sideways for one tick.
        if dx != 0 {
            dx = 0;
            dy = if f.y != h.y {
                if f.y > h.y {
                    1
                } else {
                    -1
                }
            } else {
                1
            };
        } else {
            dy = 0;
            dx = if f.x != h.x {
                if f.x > h.x {
                    1
                } else {
                    -1
                }
            } else {
                1
            };
        }
    }
    g.change_direction(dx, dy);
    g.update();
    check_state(g);
}

/// The invariants every reachable state shows to the outside: the food is on
/// the grid and never on the snake, the segments are distinct and on the
/// grid, and the score counts the eaten food cells.
fn check_state(g: &SnakeGame) {
    let grid = g.grid_size();
    let cells = g.snake_cells();
    let food = g.food_cell();
    assert!(food.x < grid && food.y < grid);
    assert_eq!(g.score(), g.snake_len() - 1);
    assert_eq!(cells.len(), g.snake_len());
    for (i, c) in cells.iter().enumerate() {
        assert!(c.x < grid && c.y < grid);
        assert!(!(c.x == food.x && c.y == food.y), "food on the snake");
        for other in cells.iter().skip(i + 1) {
            assert!(!(c.x == other.x && c.y == other.y), "duplicate segment");
        }
    }
}

/// Eat food until the snake has at least `target` segments.
fn grow_to(g: &mut SnakeGame, target: usize) {
    let mut steps = 0;
    while g.snake_len() < target {
        assert!(!g.is_game_over(), "died while navigating");
        steps += 1;
        assert!(steps < 2000, "navigation took too long");
        step_toward_food(g);
    }
}

#[test]
fn construction_state() {
    let g = SnakeGame::new(10, 1);
    assert_eq!(g.grid_size(), 10);
    assert_eq!(g.snake_len(), 1);
    assert_eq!(g.head(), Cell { x: 5, y: 5 });
    assert_eq!(g.food_cell(), Cell { x: 3, y: 3 });
    assert_eq!(g.direction(), Dir { dx: 1, dy: 0 });
    assert_eq!(g.score(), 0);
    assert!(!g.is_game_over());
    check_state(&g);
}

#[test]
fn construction_small_grids() {
    // On a 3x3 grid the cell derived off the center would be the center
    // itself, so the food starts at the origin instead.
    let g = SnakeGame::new(3, 1);
    assert_eq!(g.head(), Cell { x: 1, y: 1 });
    assert_eq!(g.food_cell(), Cell { x: 0, y: 0 });
    check_state(&g);

    let g2 = SnakeGame::new(2, 1);
    assert_eq!(g2.head(), Cell { x: 1, y: 1 });
    assert_eq!(g2.food_cell(), Cell { x: 0, y: 0 });
    check_state(&g2);
}

#[test]
fn straight_line_growth() {
    // Snake at (5,5) driving right, food far away at (3,3): three ticks move
    // the head to (8,5); the length stays 1 and the score stays 0.
    let mut g = SnakeGame::new(10, 1);
    g.update();
    g.update();
    g.update();
    assert_eq!(g.head(), Cell { x: 8, y: 5 });
    assert_eq!(g.snake_len(), 1);
    assert_eq!(g.score(), 0);
    assert!(!g.is_game_over());
    check_state(&g);
}

#[test]
fn wrap_around_right_edge() {
    // Four ticks bring the head to (9,5); the fifth wraps it to (0,5).
    let mut g = SnakeGame::new(10, 1);
    for _ in 0..4 {
        g.update();
    }
    assert_eq!(g.head(), Cell { x: 9, y: 5 });
    g.update();
    assert_eq!(g.head(), Cell { x: 0, y: 5 });
    assert!(!g.is_game_over());
    check_state(&g);
}

#[test]
fn wrap_around_top_edge() {
    // Driving up from (5,5): after six ticks the head has wrapped to (5,9).
    let mut g = SnakeGame::new(10, 1);
    g.change_direction(0, -1);
    for _ in 0..6 {
        g.update();
        check_state(&g);
    }
    assert_eq!(g.head(), Cell { x: 5, y: 9 });
    assert!(!g.is_game_over());
}

#[test]
fn reversal_rejection() {
    // Driving right, an exact reversal request is ignored.
    let mut g = SnakeGame::new(10, 1);
    g.change_direction(-1, 0);
    assert_eq!(g.direction(), Dir { dx: 1, dy: 0 });
    g.update();
    assert_eq!(g.head(), Cell { x: 6, y: 5 });
}

#[test]
fn reversal_through_double_turn_rejected() {
    // Two quick direction changes between ticks cannot add up to a
    // reversal: the second request still negates the direction the previous
    // tick moved in, so it is ignored and the first one stands.
    let mut g = SnakeGame::new(10, 1);
    g.change_direction(0, 1);
    assert_eq!(g.direction(), Dir { dx: 0, dy: 1 });
    g.change_direction(-1, 0);
    assert_eq!(g.direction(), Dir { dx: 0, dy: 1 });
    g.update();
    assert_eq!(g.head(), Cell { x: 5, y: 6 });
}

#[test]
fn non_cardinal_vectors_ignored() {
    let mut g = SnakeGame::new(10, 1);
    g.change_direction(2, 0);
    g.change_direction(1, 1);
    g.change_direction(0, 0);
    g.change_direction(-3, 2);
    assert_eq!(g.direction(), Dir { dx: 1, dy: 0 });
}

#[test]
fn growth_on_food() {
    // Navigate from (5,5) to the food at (3,3): up twice, then left twice.
    // Eating it grows the snake by exactly one and scores exactly one.
    let mut g = SnakeGame::new(10, 1);
    g.change_direction(0, -1);
    g.update();
    g.update();
    assert_eq!(g.head(), Cell { x: 5, y: 3 });
    g.change_direction(-1, 0);
    g.update();
    assert_eq!(g.snake_len(), 1);
    assert_eq!(g.score(), 0);
    g.update();
    assert_eq!(g.head(), Cell { x: 3, y: 3 });
    assert_eq!(g.snake_len(), 2);
    assert_eq!(g.score(), 1);
    assert!(!g.is_game_over());
    // The food was re-placed: on the grid and off the snake.
    check_state(&g);
}

#[test]
fn self_collision_freezes_game() {
    // Grow to length 4 by eating, straighten out, then turn back into the
    // body: the colliding tick sets game over and mutates nothing else.
    let mut g = SnakeGame::new(10, 3);
    grow_to(&mut g, 4);
    for _ in 0..3 {
        g.update();
        assert!(!g.is_game_over(), "ran into itself while straightening");
        check_state(&g);
    }
    let d = g.direction();
    let p = Dir { dx: -d.dy, dy: d.dx };
    g.change_direction(p.dx, p.dy);
    g.update();
    assert!(!g.is_game_over());
    g.change_direction(-d.dx, -d.dy);
    g.update();
    assert!(!g.is_game_over());
    let len_before = g.snake_len();
    let score_before = g.score();
    let food_before = g.food_cell();
    let cells_before = g.snake_cells();
    g.change_direction(-p.dx, -p.dy);
    g.update();
    assert!(g.is_game_over(), "expected a self-collision");
    assert_eq!(g.snake_len(), len_before);
    assert_eq!(g.score(), score_before);
    assert_eq!(g.food_cell(), food_before);
    assert_eq!(g.snake_cells(), cells_before);
}

#[test]
fn terminal_ticks_change_nothing() {
    // On a 2x2 grid: eat the food at (0,0), then run into the body. Once
    // the game is over, further ticks and direction changes are no-ops.
    let mut g = SnakeGame::new(2, 1);
    g.change_direction(0, -1);
    g.update();
    assert_eq!(g.head(), Cell { x: 1, y: 0 });
    g.change_direction(-1, 0);
    g.update();
    assert_eq!(g.head(), Cell { x: 0, y: 0 });
    assert_eq!(g.score(), 1);
    assert_eq!(g.snake_len(), 2);
    check_state(&g);
    // Straight on: (0,0) -> wraps to (1,0), which the body occupies.
    g.update();
    assert!(g.is_game_over());
    let len_before = g.snake_len();
    let score_before = g.score();
    let food_before = g.food_cell();
    let cells_before = g.snake_cells();
    let dir_before = g.direction();
    for _ in 0..5 {
        g.update();
    }
    g.change_direction(0, 1);
    assert_eq!(g.snake_len(), len_before);
    assert_eq!(g.score(), score_before);
    assert_eq!(g.food_cell(), food_before);
    assert_eq!(g.snake_cells(), cells_before);
    assert_eq!(g.direction(), dir_before);
    assert!(g.is_game_over());
}

#[test]
fn food_stays_off_snake_through_long_play() {
    // Eat food after food on a 6x6 grid; after construction and after every
    // tick the food cell is on the grid and never a body segment.
    let mut g = SnakeGame::new(6, 42);
    check_state(&g);
    grow_to(&mut g, 7);
    assert_eq!(g.score(), 6);
    assert_eq!(g.snake_len(), 7);
}
