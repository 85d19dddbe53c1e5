//! The game as a mathematical state and the rules that take one state to the next.
use vstd::prelude::*;
use crate::direction::SnakeDirection;
use crate::food::{food_place, is_free};
use crate::grid::{cell_sum, in_bounds, Cell};
use crate::snake::{initial_snake, snake_ok};

verus! {

/// The tick rate never falls below this through speeding up.
pub const MIN_TICK_RATE: u32 = 5;

/// The game speeds up each time the score reaches a multiple of this.
pub const POINTS_PER_SPEEDUP: u32 = 3;

/// Whether the simulation is running or halted.
#[derive(Clone, Copy, PartialEq, Eq, Structural, Debug)]
pub enum GameState {
    Playing,
    Paused,
}

/// A field on which a round can open: the opening snake lies on it, at least one
/// interior cell beside the snake is left for food, and the number of cells, which
/// bounds the score, fits in 32 bits.
pub open spec fn valid_grid(width: int, height: int) -> bool {
    &&& width >= 4
    &&& height >= 2
    &&& exists|c: Cell| is_free(initial_snake(), width, height, c)
    &&& width * height <= u32::MAX
}

/// The tick rate after the score has risen to `score`: one less at every multiple of
/// `POINTS_PER_SPEEDUP`, but never less than `MIN_TICK_RATE`.
pub open spec fn sped_up(tick_rate: nat, score: nat) -> nat {
    if score % (POINTS_PER_SPEEDUP as nat) == 0 && tick_rate > MIN_TICK_RATE {
        (tick_rate - 1) as nat
    } else {
        tick_rate
    }
}

/// One operation on a game. The operations that may place food carry the candidates
/// for its place.
pub enum Operation {
    /// One tick.
    Tick(Seq<Cell>),
    /// One update of the frame loop.
    Update(Seq<Cell>),
    /// A request to travel in a direction.
    Steer(SnakeDirection),
    /// The pause key.
    TogglePause,
}

/// The whole state of a game.
pub struct GameView {
    /// Width of the field, in cells.
    pub width: int,
    /// Height of the field, in cells.
    pub height: int,
    /// The tick rate with which every round opens.
    pub initial_tick_rate: nat,
    /// The cells of the snake, head first.
    pub snake: Seq<Cell>,
    /// The direction of the next step.
    pub direction: SnakeDirection,
    /// The cell that holds the food.
    pub food: Cell,
    /// Whether the game is running.
    pub state: GameState,
    /// Updates counted since the last tick that was due.
    pub tick_counter: nat,
    /// Updates per tick: the smaller, the faster the snake.
    pub tick_rate: nat,
    /// Food eaten in this round.
    pub score: nat,
    /// The highest score of any round so far.
    pub high_score: nat,
}

impl GameView {
    /// The least tick rate that the game can reach: `MIN_TICK_RATE`, or the opening
    /// rate where that is lower still.
    pub open spec fn tick_rate_floor(self) -> nat {
        if self.initial_tick_rate < MIN_TICK_RATE {
            self.initial_tick_rate
        } else {
            MIN_TICK_RATE as nat
        }
    }

    /// What holds of every state between two operations.
    pub open spec fn wf(self) -> bool {
        &&& valid_grid(self.width, self.height)
        &&& snake_ok(self.snake, self.width, self.height)
        &&& self.snake.len() == self.score + 3
        &&& is_free(self.snake, self.width, self.height, self.food)
        &&& self.score <= self.high_score
        &&& self.tick_rate_floor() <= self.tick_rate <= self.initial_tick_rate
    }

    /// The two states differ at most in where the food lies.
    pub open spec fn same_but_food(self, other: GameView) -> bool {
        self == (GameView { food: self.food, ..other })
    }

    /// The state in which a game opens, with the food where `candidates` put it.
    pub open spec fn initial(
        width: int,
        height: int,
        initial_tick_rate: nat,
        candidates: Seq<Cell>,
    ) -> GameView {
        GameView {
            width,
            height,
            initial_tick_rate,
            snake: initial_snake(),
            direction: SnakeDirection::Right,
            food: food_place(initial_snake(), width, height, candidates).unwrap(),
            state: GameState::Paused,
            tick_counter: 0,
            tick_rate: initial_tick_rate,
            score: 0,
            high_score: 0,
        }
    }

    /// The state in which the next round opens: the opening state, but for the high
    /// score, which stays.
    pub open spec fn restarted(self, candidates: Seq<Cell>) -> GameView {
        GameView {
            high_score: self.high_score,
            ..GameView::initial(self.width, self.height, self.initial_tick_rate, candidates)
        }
    }

    /// The head of the snake.
    pub open spec fn head(self) -> Cell {
        self.snake[0]
    }

    /// The cell that the head enters with the next step.
    pub open spec fn next_head(self) -> Cell {
        cell_sum(self.head(), self.direction.delta())
    }

    /// The next step takes the head onto the food.
    pub open spec fn reaches_food(self) -> bool {
        self.next_head() == self.food
    }

    /// The cells that stay occupied during the next step: all of the snake where it
    /// eats, else all but its tail.
    pub open spec fn trailing_body(self) -> Seq<Cell> {
        if self.reaches_food() {
            self.snake
        } else {
            self.snake.drop_last()
        }
    }

    /// The next step takes the head off the field or into the snake.
    pub open spec fn collides(self) -> bool {
        ||| !in_bounds(self.next_head(), self.width, self.height)
        ||| self.trailing_body().contains(self.next_head())
    }

    /// The snake after the next step.
    pub open spec fn moved_snake(self) -> Seq<Cell> {
        seq![self.next_head()] + self.trailing_body()
    }

    /// The snake has eaten and no interior cell is left for new food.
    pub open spec fn fills_interior(self, candidates: Seq<Cell>) -> bool {
        &&& self.reaches_food()
        &&& food_place(self.moved_snake(), self.width, self.height, candidates) is None
    }

    /// The next tick ends the round: the snake collides, or it eats and thereby fills
    /// the interior.
    pub open spec fn round_ends(self, candidates: Seq<Cell>) -> bool {
        self.collides() || self.fills_interior(candidates)
    }

    /// The next tick puts food on a new cell: the game is running, and the snake eats
    /// or the round ends.
    pub open spec fn places_food(self) -> bool {
        self.state == GameState::Playing && (self.reaches_food() || self.collides())
    }

    /// The state after the snake has eaten and new food lies on `food`.
    pub open spec fn fed(self, food: Cell) -> GameView {
        let score = self.score + 1;
        GameView {
            snake: self.moved_snake(),
            food,
            score,
            high_score: if score > self.high_score {
                score
            } else {
                self.high_score
            },
            tick_rate: sped_up(self.tick_rate, score),
            ..self
        }
    }

    /// The state after one tick. A paused game stays as it is. Else the snake takes
    /// one step. If that ends the round, the next round opens at once, paused; food
    /// that fills the interior still counts towards the high score.
    pub open spec fn tick(self, candidates: Seq<Cell>) -> GameView {
        if self.state == GameState::Paused {
            self
        } else if self.collides() {
            self.restarted(candidates)
        } else if !self.reaches_food() {
            GameView { snake: self.moved_snake(), ..self }
        } else {
            match food_place(self.moved_snake(), self.width, self.height, candidates) {
                Some(food) => self.fed(food),
                None => self.fed(self.food).restarted(candidates),
            }
        }
    }

    /// A step in direction `dir` would take the head onto the cell right behind it.
    pub open spec fn is_reversal(self, dir: SnakeDirection) -> bool {
        self.snake.len() >= 2 && cell_sum(self.head(), dir.delta()) == self.snake[1]
    }

    /// The state after a request to travel in direction `dir`: a reversal is ignored.
    pub open spec fn steered(self, dir: SnakeDirection) -> GameView {
        if self.is_reversal(dir) {
            self
        } else {
            GameView { direction: dir, ..self }
        }
    }

    /// The state after the pause key: playing becomes paused and paused playing.
    pub open spec fn pause_toggled(self) -> GameView {
        GameView {
            state: match self.state {
                GameState::Playing => GameState::Paused,
                GameState::Paused => GameState::Playing,
            },
            ..self
        }
    }

    /// The update that comes next is the one on which the snake moves.
    pub open spec fn tick_is_due(self) -> bool {
        self.state == GameState::Playing && self.tick_counter + 1 >= self.tick_rate
    }

    /// The state after one update has been counted: a paused game counts nothing, and
    /// the count starts over when a tick is due.
    pub open spec fn counted(self) -> GameView {
        if self.state == GameState::Paused {
            self
        } else if self.tick_is_due() {
            GameView { tick_counter: 0, ..self }
        } else {
            GameView { tick_counter: self.tick_counter + 1, ..self }
        }
    }

    /// The state after one update of the frame loop: the update is counted, and the
    /// snake moves if a tick is due.
    pub open spec fn updated(self, candidates: Seq<Cell>) -> GameView {
        if self.tick_is_due() {
            self.counted().tick(candidates)
        } else {
            self.counted()
        }
    }

    /// The state after one operation.
    pub open spec fn apply(self, op: Operation) -> GameView {
        match op {
            Operation::Tick(candidates) => self.tick(candidates),
            Operation::Update(candidates) => self.updated(candidates),
            Operation::Steer(dir) => self.steered(dir),
            Operation::TogglePause => self.pause_toggled(),
        }
    }

    /// The state after a sequence of operations, the first of them applied first.
    pub open spec fn run(self, ops: Seq<Operation>) -> GameView
        decreases ops.len(),
    {
        if ops.len() == 0 {
            self
        } else {
            self.run(ops.drop_last()).apply(ops.last())
        }
    }
}

} // verus!
