//! The game loop: the whole state of a game and the fixed sequence of steps
//! that one tick runs on it.

use crate::controller::{
    eat_food, game_over, lemma_initial_snake_leaves_room, move_snake, snake_controller, EatEvent,
    GameOverEvent, InputLatch,
};
use crate::food::{food_spawner, grid_full, is_open, spawn_new_food, Food, FoodError};
use crate::grid::{Grid, Position};
use crate::snake::{
    grow_snake, initial_snake, spawn_snake, LastTailPosition, SnakeState, SnakeView, START_X,
    START_Y,
};
use vstd::prelude::*;

verus! {

/// The events of one tick. A tick emits at most one of the two.
#[derive(Clone, Copy, PartialEq, Eq, Structural, Debug)]
pub struct TickEvents {
    pub eat: Option<EatEvent>,
    pub game_over: Option<GameOverEvent>,
}

/// A game as the contracts see it.
pub ghost struct GameView {
    /// The playing field, fixed for the whole game.
    pub grid: Grid,
    /// The snake.
    pub snake: SnakeView,
    /// The food on the grid, if there is any.
    pub food: Option<Food>,
    /// Where the tail was before the latest shift.
    pub last_tail: Option<Position>,
}

/// Whether a game can be played on `grid`: it has cells, and the cell in
/// which the snake's head starts is one of them.
pub open spec fn playable(grid: Grid) -> bool {
    grid.wf() && grid.contains(Position { x: START_X, y: START_Y })
}

impl GameView {
    /// A game between two ticks: the grid is playable, the snake is alive
    /// with its head on the grid, and the food, if any, lies on the grid.
    pub open spec fn wf(self) -> bool {
        &&& playable(self.grid)
        &&& self.snake.on_grid(self.grid)
        &&& self.snake.alive
        &&& self.food is Some ==> self.grid.contains(self.food->0.position)
    }

    /// The snake once the tick's input has been applied to its heading.
    pub open spec fn steered(self, keys: InputLatch) -> SnakeView {
        self.snake.turned(keys.resolved(self.snake.heading))
    }

    /// Whether the tick ends the game.
    pub open spec fn ends(self, keys: InputLatch) -> bool {
        self.steered(keys).fatal(self.grid)
    }

    /// Whether the snake eats in the tick: the game goes on and the head
    /// arrives on the food.
    pub open spec fn eats(self, keys: InputLatch) -> bool {
        !self.ends(keys)
            && self.food == Some(Food { position: self.steered(keys).next_head(self.grid) })
    }

    /// The snake after the tick: a new one if the game ended; otherwise the
    /// steered snake moved by one cell, with a segment added where its tail
    /// was if it ate.
    pub open spec fn snake_after(self, keys: InputLatch) -> SnakeView {
        let steered = self.steered(keys);
        if self.ends(keys) {
            initial_snake()
        } else if self.eats(keys) {
            steered.advanced(self.grid).grown(steered.tail())
        } else {
            steered.advanced(self.grid)
        }
    }

    /// Whether the food, if there is any, lies on a cell that the snake does
    /// not hold.
    pub open spec fn food_is_clear(self) -> bool {
        self.food is Some ==> !self.snake.segments.contains(self.food->0.position)
    }

    /// The events that the tick emits.
    pub open spec fn events(self, keys: InputLatch) -> TickEvents {
        TickEvents {
            eat: if self.eats(keys) {
                Some(EatEvent)
            } else {
                None
            },
            game_over: if self.ends(keys) {
                Some(GameOverEvent)
            } else {
                None
            },
        }
    }
}

impl GameView {
    /// A snake whose segments are on cells of their own is so again after
    /// the tick, whatever the tick brings.
    pub proof fn lemma_tick_keeps_segments_apart(self, keys: InputLatch)
        requires
            self.wf(),
            self.snake.segments.no_duplicates(),
        ensures
            self.snake_after(keys).segments.no_duplicates(),
    {
        if !self.ends(keys) {
            self.steered(keys).lemma_segments_stay_apart(self.grid);
        }
    }

    /// Food that the snake does not hold is not under the snake after a tick
    /// in which the snake neither dies nor eats.
    pub proof fn lemma_quiet_tick_keeps_food_clear(self, keys: InputLatch)
        requires
            self.wf(),
            self.food_is_clear(),
            !self.ends(keys),
            !self.eats(keys),
        ensures
            self.food is Some ==> !self.snake_after(keys).segments.contains(self.food->0.position),
    {
        if self.food is Some {
            let cell = self.food->0.position;
            let before = self.snake.segments;
            let after = self.snake_after(keys).segments;
            if after.contains(cell) {
                let i = choose|i: int| 0 <= i < after.len() && after[i] == cell;
                if i > 0 {
                    assert(before[i - 1] == cell);
                }
            }
        }
    }
}

/// The whole state of one game, owned by the game loop.
#[derive(Debug)]
pub struct GameState {
    grid: Grid,
    snake: SnakeState,
    food: Option<Food>,
    last_tail_position: LastTailPosition,
}

impl View for GameState {
    type V = GameView;

    closed spec fn view(&self) -> GameView {
        GameView {
            grid: self.grid,
            snake: self.snake@,
            food: self.food,
            last_tail: self.last_tail_position.0,
        }
    }
}

impl GameState {
    /// Starts a game on `grid`: a new snake, and food on a random cell that
    /// the snake leaves free. `None` if no game can be played on the grid.
    pub fn new(grid: Grid) -> (res: Option<GameState>)
        ensures
            res is Some <==> playable(grid),
            res is Some ==> {
                &&& res->0@.wf()
                &&& res->0@.grid == grid
                &&& res->0@.snake == initial_snake()
                &&& res->0@.last_tail is None
                &&& res->0@.food is Some
                &&& is_open(grid, initial_snake().segments, res->0@.food->0.position)
                &&& res->0@.food_is_clear()
                &&& res->0@.snake.segments.no_duplicates()
            },
    {
        if !(grid.is_valid() && grid.in_grid(Position { x: START_X, y: START_Y })) {
            return None;
        }
        let snake = spawn_snake();
        proof {
            lemma_initial_snake_leaves_room(grid);
        }
        // The grid is never full here: the new snake leaves its origin free.
        match food_spawner(snake.segments(), &grid) {
            Ok(food) => Some(
                GameState {
                    grid,
                    snake,
                    food: Some(food),
                    last_tail_position: LastTailPosition::default(),
                },
            ),
            Err(_) => None,
        }
    }

    /// A game made of the given parts, with no tail position recorded.
    /// `None` unless the grid is playable, the snake is alive with its head
    /// on the grid, and the food, if any, lies on the grid.
    pub fn from_parts(grid: Grid, snake: SnakeState, food: Option<Food>) -> (res: Option<GameState>)
        ensures
            res is Some <==> (GameView { grid, snake: snake@, food, last_tail: None }).wf(),
            res is Some ==> res->0@ == (GameView { grid, snake: snake@, food, last_tail: None }),
    {
        let game = GameState { grid, snake, food, last_tail_position: LastTailPosition::default() };
        if game.is_valid() {
            Some(game)
        } else {
            None
        }
    }

    /// Whether the game is in the state that every tick starts from and
    /// leaves behind.
    pub fn is_valid(&self) -> (res: bool)
        ensures
            res == self@.wf(),
    {
        let start = Position { x: START_X, y: START_Y };
        let food_on_grid = match self.food {
            Some(placed) => self.grid.in_grid(placed.position),
            None => true,
        };
        self.grid.is_valid() && self.grid.in_grid(start) && self.snake.is_on_grid(&self.grid)
            && self.snake.is_alive() && food_on_grid
    }

    /// The playing field.
    pub fn grid(&self) -> (res: Grid)
        ensures
            res == self@.grid,
    {
        self.grid
    }

    /// The snake.
    pub fn snake(&self) -> (res: &SnakeState)
        ensures
            res@ == self@.snake,
    {
        &self.snake
    }

    /// The food on the grid, if there is any.
    pub fn food(&self) -> (res: Option<Food>)
        ensures
            res == self@.food,
    {
        self.food
    }

    /// Where the tail was before the latest shift.
    pub fn last_tail_position(&self) -> (res: LastTailPosition)
        ensures
            res.0 == self@.last_tail,
    {
        self.last_tail_position
    }

    /// Runs one tick: the input steers the snake, the snake moves, and the
    /// collision test is made. If the game is over, a new snake and new food
    /// replace the old. Otherwise, if the head is on the food, the snake
    /// eats: it grows where its tail was and new food is placed on a random
    /// cell that it leaves free. Fails, with no food on the grid, if and only
    /// if the snake ate and now fills the grid.
    pub fn tick(&mut self, keys: &InputLatch) -> (res: Result<TickEvents, FoodError>)
        requires
            old(self)@.wf(),
        ensures
            final(self)@.wf(),
            final(self)@.grid == old(self)@.grid,
            final(self)@.snake == old(self)@.snake_after(*keys),
            final(self)@.last_tail == Some(old(self)@.snake.tail()),
            res is Ok ==> res->Ok_0 == old(self)@.events(*keys),
            res is Err <==> {
                &&& old(self)@.eats(*keys)
                &&& grid_full(old(self)@.grid, final(self)@.snake.segments)
            },
            res is Err ==> final(self)@.food is None,
            !old(self)@.ends(*keys) && !old(self)@.eats(*keys)
                ==> final(self)@.food == old(self)@.food,
            res is Ok && (old(self)@.ends(*keys) || old(self)@.eats(*keys)) ==> {
                &&& final(self)@.food is Some
                &&& is_open(
                    old(self)@.grid,
                    final(self)@.snake.segments,
                    final(self)@.food->0.position,
                )
            },
            res is Ok ==> res->Ok_0.eat is None || res->Ok_0.game_over is None,
            old(self)@.ends(*keys)
                || final(self)@.snake.heading != old(self)@.snake.heading.opposite(),
            old(self)@.snake.segments.no_duplicates()
                ==> final(self)@.snake.segments.no_duplicates(),
            old(self)@.food_is_clear() ==> final(self)@.food_is_clear(),
    {
        proof {
            if old(self)@.snake.segments.no_duplicates() {
                old(self)@.lemma_tick_keeps_segments_apart(*keys);
            }
            if old(self)@.food_is_clear() && !old(self)@.ends(*keys) && !old(self)@.eats(*keys) {
                old(self)@.lemma_quiet_tick_keeps_food_clear(*keys);
            }
        }
        let grid = self.grid;
        snake_controller(keys, &mut self.snake);
        let ghost steered = self.snake@;
        let ended = move_snake(&mut self.snake, &mut self.last_tail_position, &grid);
        if ended.is_some() {
            game_over(ended, &mut self.snake, &mut self.food, &grid);
            return Ok(TickEvents { eat: None, game_over: ended });
        }
        proof {
            steered.lemma_advanced_head(grid);
        }
        let head_position = self.snake.head_position();
        let eat = eat_food(&mut self.food, head_position);
        grow_snake(&mut self.snake, &self.last_tail_position, eat);
        match spawn_new_food(eat, self.snake.segments(), &grid) {
            Ok(Some(food)) => {
                self.food = Some(food);
                Ok(TickEvents { eat, game_over: None })
            },
            Ok(None) => Ok(TickEvents { eat, game_over: None }),
            Err(error) => Err(error),
        }
    }
}

} // verus!
