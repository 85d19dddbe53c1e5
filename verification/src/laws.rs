//! What holds of the rules of the game, proved over the mathematical state.
use vstd::prelude::*;
use crate::food::{food_place, is_free, lemma_food_place};
use crate::grid::{adjacent, in_bounds, Cell};
use crate::direction::SnakeDirection;
use crate::model::{valid_grid, GameState, GameView, Operation, MIN_TICK_RATE};
use crate::snake::{
    initial_snake, lemma_drop_tail_ok, lemma_initial_snake_ok, lemma_new_head_ok,
    lemma_snake_fits_grid, snake_ok,
};

verus! {

/// A field is valid if and only if it is at least 4 wide, at least 4 high or else 3
/// high and at least 6 wide, and has at most `u32::MAX` cells.
pub proof fn lemma_valid_grid_shape(width: int, height: int)
    ensures
        valid_grid(width, height) <==> {
            &&& width >= 4
            &&& height >= 4 || (height == 3 && width >= 6)
            &&& width * height <= u32::MAX
        },
{
    let body = initial_snake();
    assert(body[0] == Cell { x: 3, y: 1 } && body[1] == Cell { x: 2, y: 1 } && body[2] == Cell {
        x: 1,
        y: 1,
    });
    if width >= 4 && height >= 4 {
        assert(is_free(body, width, height, Cell { x: 1, y: 2 }));
    } else if width >= 6 && height == 3 {
        assert(is_free(body, width, height, Cell { x: 4, y: 1 }));
    } else if width >= 4 {
        assert forall|c: Cell| !is_free(body, width, height, c) by {
            if is_free(body, width, height, c) {
                assert(body[3 - c.x] == c);
            }
        }
    }
}

/// Both sides of a valid field fit the coordinate type.
pub proof fn lemma_valid_grid_sides(width: int, height: int)
    requires
        valid_grid(width, height),
    ensures
        4 <= width <= i32::MAX,
        3 <= height <= i32::MAX,
{
    assert(width <= i32::MAX && height <= i32::MAX) by (nonlinear_arith)
        requires
            width >= 4,
            height >= 2,
            width * height <= u32::MAX,
    ;
}

/// On a valid field the opening state is well formed, wherever the candidates lie.
pub proof fn lemma_initial_wf(
    width: int,
    height: int,
    initial_tick_rate: nat,
    candidates: Seq<Cell>,
)
    requires
        valid_grid(width, height),
    ensures
        GameView::initial(width, height, initial_tick_rate, candidates).wf(),
        food_place(initial_snake(), width, height, candidates) is Some,
{
    lemma_initial_snake_ok(width, height);
    lemma_food_place(initial_snake(), width, height, candidates);
}

/// Unless the snake collides, the body after the step is sound.
pub proof fn lemma_moved_snake_ok(g: GameView)
    requires
        g.wf(),
        !g.collides(),
    ensures
        snake_ok(g.moved_snake(), g.width, g.height),
        g.moved_snake().len() == g.trailing_body().len() + 1,
        g.moved_snake()[0] == g.next_head(),
        adjacent(g.next_head(), g.head()),
{
    let rest = g.trailing_body();
    lemma_valid_grid_sides(g.width, g.height);
    assert(in_bounds(g.snake[0], g.width, g.height));
    if !g.reaches_food() {
        lemma_drop_tail_ok(g.snake, g.width, g.height);
    }
    assert(rest[0] == g.snake[0]);
    lemma_new_head_ok(rest, g.next_head(), g.width, g.height);
}

/// A tick takes a well-formed state to a well-formed state.
pub proof fn lemma_tick_keeps_wf(g: GameView, candidates: Seq<Cell>)
    requires
        g.wf(),
    ensures
        g.tick(candidates).wf(),
{
    if g.state == GameState::Playing {
        lemma_initial_wf(g.width, g.height, g.initial_tick_rate, candidates);
        if !g.round_ends(candidates) {
            lemma_moved_snake_ok(g);
            let moved = g.moved_snake();
            if g.reaches_food() {
                lemma_food_place(moved, g.width, g.height, candidates);
            } else {
                assert(!moved.contains(g.food)) by {
                    if moved.contains(g.food) {
                        let i = choose|i: int| 0 <= i < moved.len() && moved[i] == g.food;
                        assert(i > 0);
                        assert(moved[i] == g.snake[i - 1]);
                    }
                }
            }
        }
    }
}

/// The snake is never longer than the field has cells, so the score fits in 32 bits.
pub proof fn lemma_score_fits(g: GameView)
    requires
        g.wf(),
    ensures
        g.snake.len() <= g.width * g.height,
        g.score + 3 <= u32::MAX,
{
    lemma_snake_fits_grid(g.snake, g.width, g.height);
}

/// Every operation takes a well-formed state to a well-formed state.
pub proof fn lemma_apply_keeps_wf(g: GameView, op: Operation)
    requires
        g.wf(),
    ensures
        g.apply(op).wf(),
{
    match op {
        Operation::Tick(candidates) => {
            lemma_tick_keeps_wf(g, candidates);
        },
        Operation::Update(candidates) => {
            lemma_tick_keeps_wf(g.counted(), candidates);
        },
        Operation::Steer(_) => {},
        Operation::TogglePause => {},
    }
}

/// Every state that a well-formed state can reach is well formed. So in every state
/// of a game the snake lies on the field, its cells follow one another edge to edge
/// and none occurs twice, and the food lies on a free interior cell.
pub proof fn lemma_run_keeps_wf(g: GameView, ops: Seq<Operation>)
    requires
        g.wf(),
    ensures
        g.run(ops).wf(),
    decreases ops.len(),
{
    if ops.len() > 0 {
        lemma_run_keeps_wf(g, ops.drop_last());
        lemma_apply_keeps_wf(g.run(ops.drop_last()), ops.last());
    }
}

/// A tick that does not end the round leaves the snake as long as it was, unless the
/// snake reaches the food: then it grows by exactly one cell. A paused game counts as
/// reaching nothing.
pub proof fn lemma_tick_length(g: GameView, candidates: Seq<Cell>)
    requires
        g.wf(),
        g.state == GameState::Playing ==> !g.round_ends(candidates),
    ensures
        g.tick(candidates).snake.len() == g.snake.len() + if g.state == GameState::Playing
            && g.reaches_food() {
            1nat
        } else {
            0nat
        },
        g.tick(candidates).score == g.score + if g.state == GameState::Playing && g.reaches_food() {
            1nat
        } else {
            0nat
        },
{
    if g.state == GameState::Playing {
        lemma_moved_snake_ok(g);
    }
}

/// The candidates decide where new food lies and nothing else: not the snake, not
/// the score, and not whether the round ends.
pub proof fn lemma_candidates_only_move_food(g: GameView, a: Seq<Cell>, b: Seq<Cell>)
    ensures
        g.tick(a).same_but_food(g.tick(b)),
        g.updated(a).same_but_food(g.updated(b)),
        g.restarted(a).same_but_food(g.restarted(b)),
        GameView::initial(g.width, g.height, g.initial_tick_rate, a).same_but_food(
            GameView::initial(g.width, g.height, g.initial_tick_rate, b),
        ),
{
    lemma_food_place(g.moved_snake(), g.width, g.height, a);
    lemma_food_place(g.moved_snake(), g.width, g.height, b);
    let c = g.counted();
    lemma_food_place(c.moved_snake(), c.width, c.height, a);
    lemma_food_place(c.moved_snake(), c.width, c.height, b);
}

/// A tick on which no food is placed does not depend on the candidates.
pub proof fn lemma_tick_ignores_candidates(g: GameView, a: Seq<Cell>, b: Seq<Cell>)
    requires
        !g.places_food(),
    ensures
        g.tick(a) == g.tick(b),
        g.tick(a).food == g.food,
{
}

/// After a tick the food lies in the interior of the field, on a cell that the snake
/// does not cover. The same holds when a game opens.
pub proof fn lemma_food_is_free(g: GameView, candidates: Seq<Cell>)
    requires
        g.wf(),
    ensures
        is_free(
            g.tick(candidates).snake,
            g.width,
            g.height,
            g.tick(candidates).food,
        ),
        is_free(
            GameView::initial(g.width, g.height, g.initial_tick_rate, candidates).snake,
            g.width,
            g.height,
            GameView::initial(g.width, g.height, g.initial_tick_rate, candidates).food,
        ),
{
    lemma_tick_keeps_wf(g, candidates);
    lemma_initial_wf(g.width, g.height, g.initial_tick_rate, candidates);
}

/// After a tick every cell of the snake lies on the field. Where the tick ended the
/// round, the snake is the opening snake again.
pub proof fn lemma_snake_stays_on_field(g: GameView, candidates: Seq<Cell>)
    requires
        g.wf(),
    ensures
        forall|i: int|
            0 <= i < g.tick(candidates).snake.len() ==> in_bounds(
                #[trigger] g.tick(candidates).snake[i],
                g.width,
                g.height,
            ),
        g.state == GameState::Playing && g.round_ends(candidates) ==> g.tick(candidates).snake
            == initial_snake(),
{
    lemma_tick_keeps_wf(g, candidates);
}

/// After a tick each cell of the snake shares an edge with the cell behind it, and no
/// cell occurs twice.
pub proof fn lemma_snake_stays_connected(g: GameView, candidates: Seq<Cell>)
    requires
        g.wf(),
    ensures
        forall|i: int, j: int|
            0 <= i && j == i + 1 && j < g.tick(candidates).snake.len() ==> adjacent(
                #[trigger] g.tick(candidates).snake[i],
                #[trigger] g.tick(candidates).snake[j],
            ),
        g.tick(candidates).snake.no_duplicates(),
{
    lemma_tick_keeps_wf(g, candidates);
}

/// No operation lowers the high score, and the score never exceeds it.
pub proof fn lemma_high_score_never_falls(g: GameView, op: Operation)
    requires
        g.wf(),
    ensures
        g.apply(op).high_score >= g.high_score,
        g.apply(op).high_score >= g.apply(op).score,
{
    lemma_apply_keeps_wf(g, op);
}

/// Over any sequence of operations the high score never falls.
pub proof fn lemma_high_score_monotone(g: GameView, ops: Seq<Operation>)
    requires
        g.wf(),
    ensures
        g.run(ops).high_score >= g.high_score,
    decreases ops.len(),
{
    if ops.len() > 0 {
        lemma_high_score_monotone(g, ops.drop_last());
        lemma_run_keeps_wf(g, ops.drop_last());
        lemma_high_score_never_falls(g.run(ops.drop_last()), ops.last());
    }
}

/// Within a round the tick rate only falls, by at most one per tick, and speeding up
/// never takes it below `MIN_TICK_RATE`.
pub proof fn lemma_tick_rate_only_falls(g: GameView, candidates: Seq<Cell>)
    requires
        g.wf(),
        g.state == GameState::Playing ==> !g.round_ends(candidates),
    ensures
        g.tick(candidates).tick_rate <= g.tick_rate <= g.tick(candidates).tick_rate + 1,
        g.tick_rate >= MIN_TICK_RATE ==> g.tick(candidates).tick_rate >= MIN_TICK_RATE,
        g.tick(candidates).tick_rate < g.tick_rate ==> g.tick_rate > MIN_TICK_RATE,
{
}

/// In every state that a game can reach the tick rate lies between its floor and the
/// rate with which the game opened.
pub proof fn lemma_tick_rate_bounds(g: GameView, ops: Seq<Operation>)
    requires
        g.wf(),
    ensures
        g.run(ops).tick_rate_floor() == g.tick_rate_floor(),
        g.tick_rate_floor() <= g.run(ops).tick_rate <= g.initial_tick_rate,
        g.initial_tick_rate >= MIN_TICK_RATE ==> g.run(ops).tick_rate >= MIN_TICK_RATE,
{
    lemma_run_keeps_wf(g, ops);
    lemma_run_keeps_field(g, ops);
}

/// No operation changes the size of the field or the opening tick rate.
pub proof fn lemma_run_keeps_field(g: GameView, ops: Seq<Operation>)
    ensures
        g.run(ops).width == g.width,
        g.run(ops).height == g.height,
        g.run(ops).initial_tick_rate == g.initial_tick_rate,
    decreases ops.len(),
{
    if ops.len() > 0 {
        lemma_run_keeps_field(g, ops.drop_last());
    }
}

/// A request to step straight back onto the cell behind the head changes nothing.
pub proof fn lemma_reversal_is_ignored(g: GameView, dir: SnakeDirection)
    requires
        g.snake.len() >= 2,
        g.is_reversal(dir),
    ensures
        g.steered(dir) == g,
        g.steered(dir).direction == g.direction,
{
}

/// Right after a tick on which the snake moved, the direction opposite to its direction
/// of travel is a reversal: a request for it leaves the direction as it is.
pub proof fn lemma_turning_back_is_ignored(g: GameView, candidates: Seq<Cell>)
    requires
        g.wf(),
        g.state == GameState::Playing,
        !g.round_ends(candidates),
    ensures
        g.tick(candidates).is_reversal(g.tick(candidates).direction.opposite()),
        g.tick(candidates).steered(g.direction.opposite()).direction == g.direction,
{
    lemma_moved_snake_ok(g);
    lemma_valid_grid_sides(g.width, g.height);
    let after = g.tick(candidates);
    assert(in_bounds(g.snake[0], g.width, g.height));
    assert(after.snake[0] == g.next_head());
    assert(after.snake[1] == g.snake[0]);
}

/// Any other request is taken up: the direction becomes the one asked for.
pub proof fn lemma_turn_is_taken(g: GameView, dir: SnakeDirection)
    requires
        !g.is_reversal(dir),
    ensures
        g.steered(dir).direction == dir,
{
}

/// Asking twice for a direction does what asking once does.
pub proof fn lemma_steer_idempotent(g: GameView, dir: SnakeDirection)
    ensures
        g.steered(dir).steered(dir) == g.steered(dir),
{
}

/// The pause key pressed twice leaves the game as it was.
pub proof fn lemma_pause_twice(g: GameView)
    ensures
        g.pause_toggled().pause_toggled() == g,
{
}

/// A paused game ignores ticks and updates altogether.
pub proof fn lemma_paused_game_is_idle(g: GameView, candidates: Seq<Cell>)
    requires
        g.state == GameState::Paused,
    ensures
        g.tick(candidates) == g,
        g.updated(candidates) == g,
{
}

} // verus!
