//! Headings, the per-tick input latch, the events a tick can emit, and the
//! steps that a tick is made of.

use crate::food::{food_spawner, grid_full, is_open, Food};
use crate::grid::{Grid, Position};
use crate::snake::{initial_snake, spawn_snake, LastTailPosition, SnakeState};
use vstd::prelude::*;

verus! {

/// The direction the snake's head moves in on the next tick.
#[derive(Clone, Copy, PartialEq, Eq, Structural, Debug)]
pub enum SnakeDirection {
    Left,
    Right,
    Up,
    Down,
}

impl SnakeDirection {
    /// The heading that points the other way.
    pub open spec fn spec_opposite(self) -> SnakeDirection {
        match self {
            SnakeDirection::Left => SnakeDirection::Right,
            SnakeDirection::Right => SnakeDirection::Left,
            SnakeDirection::Up => SnakeDirection::Down,
            SnakeDirection::Down => SnakeDirection::Up,
        }
    }

    /// The heading that points the other way.
    #[verifier::when_used_as_spec(spec_opposite)]
    pub fn opposite(self) -> (res: SnakeDirection)
        ensures
            res == self.spec_opposite(),
            res != self,
            res.spec_opposite() == self,
    {
        match self {
            SnakeDirection::Left => SnakeDirection::Right,
            SnakeDirection::Right => SnakeDirection::Left,
            SnakeDirection::Up => SnakeDirection::Down,
            SnakeDirection::Down => SnakeDirection::Up,
        }
    }

    /// How far one step in this heading moves along the x axis.
    pub open spec fn dx(self) -> int {
        match self {
            SnakeDirection::Left => -1,
            SnakeDirection::Right => 1,
            SnakeDirection::Up => 0,
            SnakeDirection::Down => 0,
        }
    }

    /// How far one step in this heading moves along the y axis.
    pub open spec fn dy(self) -> int {
        match self {
            SnakeDirection::Left => 0,
            SnakeDirection::Right => 0,
            SnakeDirection::Up => 1,
            SnakeDirection::Down => -1,
        }
    }

    /// Turning around twice gives the heading back, and no heading is its own
    /// opposite.
    pub proof fn lemma_opposite_involution(h: SnakeDirection)
        ensures
            h.opposite().opposite() == h,
            h.opposite() != h,
    {
    }
}

/// The directional signals sampled for one tick: which of the four are
/// asserted at the moment the tick begins.
#[derive(Clone, Copy, PartialEq, Eq, Structural, Debug)]
pub struct InputLatch {
    pub left: bool,
    pub right: bool,
    pub up: bool,
    pub down: bool,
}

impl InputLatch {
    /// The heading the signals ask for: the first asserted one in the order
    /// left, right, up, down, or `current` if none is.
    pub open spec fn resolved(self, current: SnakeDirection) -> SnakeDirection {
        if self.left {
            SnakeDirection::Left
        } else if self.right {
            SnakeDirection::Right
        } else if self.up {
            SnakeDirection::Up
        } else if self.down {
            SnakeDirection::Down
        } else {
            current
        }
    }

    /// A latch with no signal asserted.
    pub fn released() -> (keys: InputLatch)
        ensures
            keys == (InputLatch { left: false, right: false, up: false, down: false }),
            forall|current: SnakeDirection| keys.resolved(current) == current,
    {
        InputLatch { left: false, right: false, up: false, down: false }
    }

    /// A latch with exactly the signal for `direction` asserted.
    pub fn pressing(direction: SnakeDirection) -> (keys: InputLatch)
        ensures
            keys == (InputLatch {
                left: direction == SnakeDirection::Left,
                right: direction == SnakeDirection::Right,
                up: direction == SnakeDirection::Up,
                down: direction == SnakeDirection::Down,
            }),
            forall|current: SnakeDirection| keys.resolved(current) == direction,
    {
        InputLatch {
            left: direction == SnakeDirection::Left,
            right: direction == SnakeDirection::Right,
            up: direction == SnakeDirection::Up,
            down: direction == SnakeDirection::Down,
        }
    }

    /// Resolves the sampled signals to one heading: the first asserted one in
    /// the order left, right, up, down wins; with none asserted the current
    /// heading is kept.
    pub fn resolve(&self, current: SnakeDirection) -> (res: SnakeDirection)
        ensures
            res == self.resolved(current),
    {
        if self.left {
            SnakeDirection::Left
        } else if self.right {
            SnakeDirection::Right
        } else if self.up {
            SnakeDirection::Up
        } else if self.down {
            SnakeDirection::Down
        } else {
            current
        }
    }
}

/// Emitted in a tick in which the head reached the food.
#[derive(Clone, Copy, PartialEq, Eq, Structural, Debug)]
pub struct EatEvent;

/// Emitted in a tick in which the snake ran into a wall or into itself.
#[derive(Clone, Copy, PartialEq, Eq, Structural, Debug)]
pub struct GameOverEvent;

/// Controls the snake's heading: resolves the sampled signals and asks the
/// snake for the result. A reversal is ignored.
pub fn snake_controller(keys: &InputLatch, snake: &mut SnakeState)
    ensures
        final(snake)@ == old(snake)@.turned(keys.resolved(old(snake)@.heading)),
        final(snake)@.heading != old(snake)@.heading.opposite(),
{
    let try_direction = keys.resolve(snake.heading());
    snake.set_heading(try_direction);
}

/// Moves the snake by one cell and tests for a collision. The tail's cell
/// before the shift is recorded. A game-over event is emitted, and the snake
/// is dead, if and only if the new head left a grid that does not wrap around
/// or met a body segment of the layout before the shift. A snake that is dead
/// already is left alone.
pub fn move_snake(
    snake: &mut SnakeState,
    last_tail_position: &mut LastTailPosition,
    grid: &Grid,
) -> (res: Option<GameOverEvent>)
    requires
        old(snake)@.on_grid(*grid),
        grid.wf(),
    ensures
        !old(snake)@.alive ==> {
            &&& res is None
            &&& final(snake)@ == old(snake)@
            &&& *final(last_tail_position) == *old(last_tail_position)
        },
        old(snake)@.alive ==> {
            &&& res == (if old(snake)@.fatal(*grid) {
                Some(GameOverEvent)
            } else {
                None
            })
            &&& final(snake)@ == old(snake)@.advanced(*grid).with_alive(!old(snake)@.fatal(*grid))
            &&& final(last_tail_position).0 == Some(old(snake)@.tail())
        },
        old(snake)@.alive && !grid.wraparound && !grid.contains(old(snake)@.next_head(*grid))
            ==> !final(snake)@.alive,
        old(snake)@.alive && old(snake)@.bites(old(snake)@.next_head(*grid))
            ==> !final(snake)@.alive,
        final(snake)@.segments.len() == old(snake)@.segments.len(),
        final(snake)@.on_grid(*grid),
{
    match snake.advance(grid) {
        Some(result) => {
            *last_tail_position = LastTailPosition(Some(result.prev_tail));
            proof {
                old(snake)@.lemma_collision_after_shift(*grid);
            }
            if snake.check_collision(grid, &result) {
                Some(GameOverEvent)
            } else {
                None
            }
        },
        None => None,
    }
}

/// Tests whether the head has reached the food. If it has, the food is taken
/// off the grid and an eat event is emitted; otherwise nothing changes.
pub fn eat_food(food: &mut Option<Food>, head_position: Position) -> (res: Option<EatEvent>)
    ensures
        *old(food) == Some(Food { position: head_position }) ==> {
            &&& res == Some(EatEvent)
            &&& *final(food) is None
        },
        *old(food) != Some(Food { position: head_position }) ==> {
            &&& res is None
            &&& *final(food) == *old(food)
        },
{
    let eaten = match food {
        Some(on_grid) => on_grid.position == head_position,
        None => false,
    };
    if eaten {
        *food = None;
        Some(EatEvent)
    } else {
        None
    }
}

/// A new snake never holds the grid's origin, so beside it there is always a
/// free cell for food.
pub proof fn lemma_initial_snake_leaves_room(grid: Grid)
    requires
        grid.wf(),
    ensures
        !grid_full(grid, initial_snake().segments),
        is_open(grid, initial_snake().segments, Position { x: 0, y: 0 }),
{
    let origin = Position { x: 0, y: 0 };
    let segments = initial_snake().segments;
    assert(grid.contains(origin));
    assert(segments[0] != origin && segments[1] != origin);
    assert(!segments.contains(origin));
}

/// Ends the game on a game-over event: the snake and the food are discarded,
/// a new snake is spawned and new food is placed on a random cell of the grid
/// that the new snake leaves free. Without the event nothing changes.
pub fn game_over(
    event: Option<GameOverEvent>,
    snake: &mut SnakeState,
    food: &mut Option<Food>,
    grid: &Grid,
)
    requires
        grid.wf(),
    ensures
        event is None ==> {
            &&& final(snake)@ == old(snake)@
            &&& *final(food) == *old(food)
        },
        event is Some ==> {
            &&& final(snake)@ == initial_snake()
            &&& *final(food) is Some
            &&& is_open(*grid, initial_snake().segments, final(food)->0.position)
        },
{
    if event.is_some() {
        *snake = spawn_snake();
        proof {
            lemma_initial_snake_leaves_room(*grid);
        }
        // The grid is never full here: the new snake leaves its origin free.
        *food = match food_spawner(snake.segments(), grid) {
            Ok(placed) => Some(placed),
            Err(_) => None,
        };
    }
}

} // verus!
