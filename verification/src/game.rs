//! The game engine: the state that a front end reads and the operations that change it.
use vstd::prelude::*;
use std::collections::VecDeque;
use crate::direction::SnakeDirection;
use crate::food::{food_place, is_free, place_food, random_candidates};
use crate::grid::{in_bounds, Cell};
use crate::laws::{
    lemma_candidates_only_move_food, lemma_initial_wf, lemma_moved_snake_ok, lemma_tick_keeps_wf,
    lemma_valid_grid_shape, lemma_valid_grid_sides,
};
use crate::model::{valid_grid, GameState, GameView, MIN_TICK_RATE, POINTS_PER_SPEEDUP};
use crate::snake::{contains_cell, contains_cell_before, initial_snake, lemma_snake_fits_grid};

verus! {

/// The tick rate with which the stock game opens.
pub const INITIAL_TICK_RATE: u32 = 15;

/// A game of snake. All of its state is private: it changes only through the
/// operations below, each of which keeps it well formed.
pub struct Game {
    width: i32,
    height: i32,
    initial_tick_rate: u32,
    snake_segments: VecDeque<Cell>,
    snake_direction: SnakeDirection,
    food: Cell,
    state: GameState,
    tick_counter: u32,
    tick_rate: u32,
    score: u32,
    high_score: u32,
}

impl View for Game {
    type V = GameView;

    closed spec fn view(&self) -> GameView {
        GameView {
            width: self.width as int,
            height: self.height as int,
            initial_tick_rate: self.initial_tick_rate as nat,
            snake: self.snake_segments@,
            direction: self.snake_direction,
            food: self.food,
            state: self.state,
            tick_counter: self.tick_counter as nat,
            tick_rate: self.tick_rate as nat,
            score: self.score as nat,
            high_score: self.high_score as nat,
        }
    }
}

/// Whether a round can open on a field of this size.
pub fn grid_is_valid(width: i32, height: i32) -> (r: bool)
    ensures
        r == valid_grid(width as int, height as int),
{
    proof {
        lemma_valid_grid_shape(width as int, height as int);
    }
    if width < 4 || height < 3 || (height == 3 && width < 6) {
        return false;
    }
    assert(0 <= width * height <= 0x4000_0000_0000_0000) by (nonlinear_arith)
        requires
            0 <= width <= 0x8000_0000,
            0 <= height <= 0x8000_0000,
    ;
    let cells: i64 = (width as i64) * (height as i64);
    cells <= u32::MAX as i64
}

impl Game {
    /// What holds of every game between two operations.
    pub open spec fn wf(&self) -> bool {
        self@.wf()
    }

    /// Opens a game on a field of the given size, paused, with the food on a random
    /// free cell.
    pub fn new(width: i32, height: i32, initial_tick_rate: u32) -> (game: Game)
        requires
            valid_grid(width as int, height as int),
        ensures
            game.wf(),
            exists|candidates: Seq<Cell>|
                game@ == #[trigger] GameView::initial(
                    width as int,
                    height as int,
                    initial_tick_rate as nat,
                    candidates,
                ),
            game@.same_but_food(
                GameView::initial(
                    width as int,
                    height as int,
                    initial_tick_rate as nat,
                    Seq::empty(),
                ),
            ),
            is_free(game@.snake, width as int, height as int, game@.food),
    {
        proof {
            lemma_valid_grid_sides(width as int, height as int);
        }
        let candidates = random_candidates(width, height);
        Game::with_food_candidates(width, height, initial_tick_rate, candidates.as_slice())
    }

    /// Opens a game on a field of the given size, paused, with the food on the first
    /// of `candidates` that is free, or on the first free cell in reading order where
    /// none of them is.
    pub fn with_food_candidates(
        width: i32,
        height: i32,
        initial_tick_rate: u32,
        candidates: &[Cell],
    ) -> (game: Game)
        requires
            valid_grid(width as int, height as int),
        ensures
            game.wf(),
            game@ == GameView::initial(
                width as int,
                height as int,
                initial_tick_rate as nat,
                candidates@,
            ),
    {
        let mut game = Game {
            width,
            height,
            initial_tick_rate,
            snake_segments: VecDeque::new(),
            snake_direction: SnakeDirection::Right,
            food: Cell { x: 0, y: 0 },
            state: GameState::Paused,
            tick_counter: 0,
            tick_rate: initial_tick_rate,
            score: 0,
            high_score: 0,
        };
        game.start(candidates);
        proof {
            lemma_initial_wf(width as int, height as int, initial_tick_rate as nat, candidates@);
        }
        game
    }

    /// Opens the next round: everything but the high score goes back to the opening
    /// state.
    fn start(&mut self, candidates: &[Cell])
        requires
            valid_grid(old(self)@.width, old(self)@.height),
        ensures
            final(self)@ == old(self)@.restarted(candidates@),
    {
        let mut body: VecDeque<Cell> = VecDeque::new();
        body.push_back(Cell { x: 3, y: 1 });
        body.push_back(Cell { x: 2, y: 1 });
        body.push_back(Cell { x: 1, y: 1 });
        assert(body@ =~= initial_snake());
        self.snake_segments = body;
        self.snake_direction = SnakeDirection::Right;
        self.state = GameState::Paused;
        self.tick_counter = 0;
        self.tick_rate = self.initial_tick_rate;
        self.score = 0;
        proof {
            lemma_initial_wf(
                self.width as int,
                self.height as int,
                self.initial_tick_rate as nat,
                candidates@,
            );
        }
        let placed = self.spawn_food(candidates);
        assert(placed);
    }

    /// Puts new food on the first of `candidates` that is free, or on the first free
    /// cell in reading order where none of them is. Where the snake covers the whole
    /// interior the food stays and the answer is `false`.
    fn spawn_food(&mut self, candidates: &[Cell]) -> (placed: bool)
        ensures
            placed == (food_place(old(self)@.snake, old(self)@.width, old(self)@.height, candidates@)
                is Some),
            placed ==> is_free(
                old(self)@.snake,
                old(self)@.width,
                old(self)@.height,
                final(self)@.food,
            ),
            placed ==> final(self)@ == (GameView {
                food: food_place(
                    old(self)@.snake,
                    old(self)@.width,
                    old(self)@.height,
                    candidates@,
                ).unwrap(),
                ..old(self)@
            }),
            !placed ==> final(self)@ == old(self)@,
    {
        match place_food(&self.snake_segments, self.width, self.height, candidates) {
            Some(cell) => {
                self.food = cell;
                true
            },
            None => false,
        }
    }

    /// Whether a head on `next_head_position` has left the field or run into the snake.
    fn check_game_over(&self, next_head_position: Cell) -> (over: bool)
        ensures
            over == (!in_bounds(next_head_position, self@.width, self@.height)
                || self@.snake.contains(next_head_position)),
    {
        if !next_head_position.is_in_bounds(self.width, self.height) {
            return true;
        }
        if self.is_snake_segment(next_head_position) {
            return true;
        }
        false
    }

    /// Whether the snake covers `point`.
    fn is_snake_segment(&self, point: Cell) -> (r: bool)
        ensures
            r == self@.snake.contains(point),
    {
        contains_cell(&self.snake_segments, point)
    }

    /// Advances the game by one tick, drawing the candidates for new food at random.
    /// A paused game stays as it is. Else the snake takes one step in its direction.
    /// It grows by the food it reaches, which scores a point and may speed the game
    /// up. A step off the field or into the snake ends the round, and so does food
    /// that fills the interior: the next round opens at once, paused.
    pub fn next_tick(&mut self)
        requires
            old(self).wf(),
        ensures
            final(self).wf(),
            exists|candidates: Seq<Cell>| final(self)@ == #[trigger] old(self)@.tick(candidates),
            final(self)@.same_but_food(old(self)@.tick(Seq::empty())),
            is_free(final(self)@.snake, final(self)@.width, final(self)@.height, final(self)@.food),
            !old(self)@.places_food() ==> final(self)@ == old(self)@.tick(Seq::empty()),
            old(self)@.state == GameState::Paused ==> final(self)@ == old(self)@,
    {
        let candidates = if self.needs_food() {
            proof {
                lemma_valid_grid_sides(self.width as int, self.height as int);
            }
            random_candidates(self.width, self.height)
        } else {
            Vec::new()
        };
        proof {
            lemma_candidates_only_move_food(self@, candidates@, Seq::empty());
        }
        self.next_tick_with(candidates.as_slice());
    }

    /// Whether the next tick puts food on a new cell, so that candidates for its place
    /// are wanted.
    pub fn needs_food(&self) -> (r: bool)
        requires
            self.wf(),
        ensures
            r == self@.places_food(),
    {
        proof {
            lemma_valid_grid_sides(self.width as int, self.height as int);
        }
        if let GameState::Paused = self.state {
            return false;
        }
        let head_position = self.snake_segments[0];
        assert(in_bounds(head_position, self@.width, self@.height));
        let next_head_position = head_position.offset(Cell::from(self.snake_direction));
        if next_head_position == self.food {
            return true;
        }
        !next_head_position.is_in_bounds(self.width, self.height) || contains_cell_before(
            &self.snake_segments,
            self.snake_segments.len() - 1,
            next_head_position,
        )
    }

    /// Advances the game by one tick as `next_tick` does, with new food on the first of
    /// `candidates` that is free, or on the first free cell in reading order where
    /// none of them is.
    pub fn next_tick_with(&mut self, candidates: &[Cell])
        requires
            old(self).wf(),
        ensures
            final(self).wf(),
            final(self)@ == old(self)@.tick(candidates@),
    {
        proof {
            lemma_tick_keeps_wf(self@, candidates@);
            lemma_valid_grid_sides(self.width as int, self.height as int);
        }
        if let GameState::Paused = self.state {
            return ;
        }
        let head_position = self.snake_segments[0];
        assert(in_bounds(head_position, self@.width, self@.height));
        let next_head_position = head_position.offset(Cell::from(self.snake_direction));

        let reached_food = next_head_position == self.food;
        if !reached_food {
            self.snake_segments.pop_back();
        }
        assert(self.snake_segments@ == old(self)@.trailing_body());

        if self.check_game_over(next_head_position) {
            self.start(candidates);
            return ;
        }
        self.snake_segments.push_front(next_head_position);
        assert(self.snake_segments@ == old(self)@.moved_snake());

        if reached_food {
            proof {
                lemma_moved_snake_ok(old(self)@);
                lemma_snake_fits_grid(self.snake_segments@, self@.width, self@.height);
            }
            self.score += 1;
            if self.score > self.high_score {
                self.high_score = self.score;
            }
            if !self.spawn_food(candidates) {
                self.start(candidates);
                return ;
            }
            if self.score % POINTS_PER_SPEEDUP == 0 && self.tick_rate > MIN_TICK_RATE {
                self.tick_rate -= 1;
            }
        }
    }

    /// Whether a step in direction `dir` would take the head straight back onto the
    /// cell behind it.
    fn illegal_move(&self, dir: SnakeDirection) -> (illegal: bool)
        requires
            self.wf(),
        ensures
            illegal == self@.is_reversal(dir),
    {
        proof {
            lemma_valid_grid_sides(self.width as int, self.height as int);
        }
        let head_position = self.snake_segments[0];
        assert(in_bounds(head_position, self@.width, self@.height));
        let next_head_position = head_position.offset(Cell::from(dir));
        next_head_position == self.snake_segments[1]
    }

    /// Takes up direction `dir` unless that would reverse the snake into itself.
    fn steer(&mut self, dir: SnakeDirection)
        requires
            old(self).wf(),
        ensures
            final(self).wf(),
            final(self)@ == old(self)@.steered(dir),
    {
        if !self.illegal_move(dir) {
            self.snake_direction = dir;
        }
    }

    /// Asks the snake to travel up. A reversal into itself is ignored.
    pub fn move_up(&mut self)
        requires
            old(self).wf(),
        ensures
            final(self).wf(),
            final(self)@ == old(self)@.steered(SnakeDirection::Up),
    {
        self.steer(SnakeDirection::Up);
    }

    /// Asks the snake to travel down. A reversal into itself is ignored.
    pub fn move_down(&mut self)
        requires
            old(self).wf(),
        ensures
            final(self).wf(),
            final(self)@ == old(self)@.steered(SnakeDirection::Down),
    {
        self.steer(SnakeDirection::Down);
    }

    /// Asks the snake to travel right. A reversal into itself is ignored.
    pub fn move_right(&mut self)
        requires
            old(self).wf(),
        ensures
            final(self).wf(),
            final(self)@ == old(self)@.steered(SnakeDirection::Right),
    {
        self.steer(SnakeDirection::Right);
    }

    /// Asks the snake to travel left. A reversal into itself is ignored.
    pub fn move_left(&mut self)
        requires
            old(self).wf(),
        ensures
            final(self).wf(),
            final(self)@ == old(self)@.steered(SnakeDirection::Left),
    {
        self.steer(SnakeDirection::Left);
    }

    /// Pauses a running game and resumes a paused one. Nothing else changes.
    pub fn toggle_pause(&mut self)
        requires
            old(self).wf(),
        ensures
            final(self).wf(),
            final(self)@ == old(self)@.pause_toggled(),
    {
        self.state = match self.state {
            GameState::Playing => GameState::Paused,
            GameState::Paused => GameState::Playing,
        };
    }

    /// Counts one update of the frame loop and says whether the snake is to move on
    /// it: on every `tick_rate`-th update of a running game.
    pub fn tick_due(&mut self) -> (due: bool)
        requires
            old(self).wf(),
        ensures
            final(self).wf(),
            due == old(self)@.tick_is_due(),
            final(self)@ == old(self)@.counted(),
    {
        if let GameState::Paused = self.state {
            return false;
        }
        if self.tick_rate == 0 || self.tick_counter >= self.tick_rate - 1 {
            self.tick_counter = 0;
            true
        } else {
            self.tick_counter += 1;
            false
        }
    }

    /// One update of the frame loop: counts it, and advances the game by one tick on
    /// every `tick_rate`-th update of a running game.
    pub fn update(&mut self)
        requires
            old(self).wf(),
        ensures
            final(self).wf(),
            exists|candidates: Seq<Cell>|
                final(self)@ == #[trigger] old(self)@.updated(candidates),
            final(self)@.same_but_food(old(self)@.updated(Seq::empty())),
            is_free(final(self)@.snake, final(self)@.width, final(self)@.height, final(self)@.food),
            !(old(self)@.tick_is_due() && old(self)@.places_food()) ==> final(self)@ == old(
                self,
            )@.updated(Seq::empty()),
            old(self)@.state == GameState::Paused ==> final(self)@ == old(self)@,
    {
        if self.tick_due() {
            let ghost counted = self@;
            assert(counted.places_food() == old(self)@.places_food());
            self.next_tick();
            proof {
                let candidates = choose|candidates: Seq<Cell>|
                    self@ == #[trigger] counted.tick(candidates);
                assert(self@ == old(self)@.updated(candidates));
            }
        } else {
            assert(self@ == old(self)@.updated(Seq::empty()));
        }
    }

    /// Width of the field, in cells.
    pub fn width(&self) -> (r: i32)
        ensures
            r == self@.width,
    {
        self.width
    }

    /// Height of the field, in cells.
    pub fn height(&self) -> (r: i32)
        ensures
            r == self@.height,
    {
        self.height
    }

    /// The cells of the snake, head first.
    pub fn snake(&self) -> (r: Vec<Cell>)
        ensures
            r@ == self@.snake,
    {
        let n = self.snake_segments.len();
        let mut cells: Vec<Cell> = Vec::new();
        let mut i: usize = 0;
        while i < n
            invariant
                n == self.snake_segments@.len(),
                i <= n,
                cells@ == self.snake_segments@.take(i as int),
            decreases n - i,
        {
            cells.push(self.snake_segments[i]);
            assert(self.snake_segments@.take(i + 1) =~= self.snake_segments@.take(i as int).push(
                self.snake_segments@[i as int],
            ));
            i += 1;
        }
        assert(self.snake_segments@.take(n as int) =~= self.snake_segments@);
        cells
    }

    /// The head of the snake.
    pub fn head(&self) -> (r: Cell)
        requires
            self.wf(),
        ensures
            r == self@.head(),
    {
        self.snake_segments[0]
    }

    /// The direction of the next step.
    pub fn direction(&self) -> (r: SnakeDirection)
        ensures
            r == self@.direction,
    {
        self.snake_direction
    }

    /// The cell that holds the food.
    pub fn food(&self) -> (r: Cell)
        ensures
            r == self@.food,
    {
        self.food
    }

    /// Whether the game is running.
    pub fn state(&self) -> (r: GameState)
        ensures
            r == self@.state,
    {
        self.state
    }

    /// Food eaten in this round.
    pub fn score(&self) -> (r: u32)
        ensures
            r == self@.score,
    {
        self.score
    }

    /// The highest score of any round so far.
    pub fn high_score(&self) -> (r: u32)
        ensures
            r == self@.high_score,
    {
        self.high_score
    }

    /// Updates per tick: the smaller, the faster the snake.
    pub fn tick_rate(&self) -> (r: u32)
        ensures
            r == self@.tick_rate,
    {
        self.tick_rate
    }
}

} // verus!
