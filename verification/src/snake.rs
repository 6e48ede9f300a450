//! The snake: its ordered segments and heading, and how a tick moves, ends or
//! lengthens it.

use crate::controller::{EatEvent, SnakeDirection};
use crate::grid::{
    contains_from, lemma_step_leaves_coordinate, occurs_from, wrap, wrap_spec, Grid, Position,
};
use vstd::arithmetic::div_mod::lemma_mod_bound;
use vstd::prelude::*;

verus! {

/// Column of the cell in which a new snake's head starts.
pub const START_X: i32 = 3;

/// Row of the cell in which a new snake's head starts.
pub const START_Y: i32 = 3;

/// The head's part of the snake: the heading it will move in.
#[derive(Clone, Copy, PartialEq, Eq, Structural, Debug)]
pub struct SnakeHead {
    pub direction: SnakeDirection,
}

/// The snake's cells in order: index 0 is the head, the last is the tail.
#[derive(Debug)]
pub struct SnakeSegmentsVec(pub Vec<Position>);

impl View for SnakeSegmentsVec {
    type V = Seq<Position>;

    open spec fn view(&self) -> Seq<Position> {
        self.0@
    }
}

impl Default for SnakeSegmentsVec {
    fn default() -> (segments: SnakeSegmentsVec)
        ensures
            segments@ == Seq::<Position>::empty(),
    {
        SnakeSegmentsVec(Vec::new())
    }
}

/// Where the tail was before the latest shift, for growth to use. It is
/// overwritten by every move, whether the snake grows or not.
#[derive(Clone, Copy, PartialEq, Eq, Structural, Debug)]
pub struct LastTailPosition(pub Option<Position>);

impl Default for LastTailPosition {
    fn default() -> (last: LastTailPosition)
        ensures
            last.0 is None,
    {
        LastTailPosition(None)
    }
}

/// What one advance reports: where the tail was before the shift, and where
/// the head is after it.
#[derive(Clone, Copy, PartialEq, Eq, Structural, Debug)]
pub struct AdvanceResult {
    pub prev_tail: Position,
    pub new_head: Position,
}

/// The snake as the contracts see it.
pub ghost struct SnakeView {
    /// The cells in order, head first.
    pub segments: Seq<Position>,
    /// The heading of the next move.
    pub heading: SnakeDirection,
    /// Whether the snake is still in play.
    pub alive: bool,
}

/// Whether a head arriving at `p` has left a grid that does not wrap around.
pub open spec fn hits_wall(grid: Grid, p: Position) -> bool {
    !grid.wraparound && !grid.contains(p)
}

/// The collision test as it is made after the shift: `segments` is the layout
/// after it. The body as it lay before the shift is what now stands from index
/// 2 on, followed by the previous tail.
pub open spec fn collision_after_shift(
    grid: Grid,
    segments: Seq<Position>,
    result: AdvanceResult,
) -> bool {
    ||| hits_wall(grid, result.new_head)
    ||| occurs_from(segments, 2, result.new_head)
    ||| result.new_head == result.prev_tail
}

/// The snake every game starts with: head on the start cell, heading up, one
/// segment directly below it.
pub open spec fn initial_snake() -> SnakeView {
    SnakeView {
        segments: seq![
            Position { x: START_X, y: START_Y },
            Position { x: START_X, y: (START_Y - 1) as i32 },
        ],
        heading: SnakeDirection::Up,
        alive: true,
    }
}

impl SnakeView {
    /// A snake has a head and at least one segment behind it.
    pub open spec fn wf(self) -> bool {
        self.segments.len() >= 2
    }

    /// The head's cell.
    pub open spec fn head(self) -> Position {
        self.segments[0]
    }

    /// The tail's cell.
    pub open spec fn tail(self) -> Position {
        self.segments.last()
    }

    /// A snake between two ticks: well-formed, and while it is alive its head
    /// is a cell of the grid.
    pub open spec fn on_grid(self, grid: Grid) -> bool {
        self.wf() && (self.alive ==> grid.contains(self.head()))
    }

    /// The snake after a request to head in `requested`: a reversal is
    /// ignored, anything else is taken.
    pub open spec fn turned(self, requested: SnakeDirection) -> SnakeView {
        if requested == self.heading.opposite() {
            self
        } else {
            SnakeView { heading: requested, ..self }
        }
    }

    /// Where the head goes next: one step in the heading, wrapped where the
    /// grid wraps around.
    pub open spec fn next_head(self, grid: Grid) -> Position {
        Position {
            x: wrap_spec(
                self.head().x + self.heading.dx(),
                grid.width as int,
                grid.wraparound,
            ) as i32,
            y: wrap_spec(
                self.head().y + self.heading.dy(),
                grid.height as int,
                grid.wraparound,
            ) as i32,
        }
    }

    /// The snake after the shift: the head on its next cell, every other
    /// segment where the one ahead of it was, the old tail cell given up.
    pub open spec fn advanced(self, grid: Grid) -> SnakeView {
        SnakeView { segments: seq![self.next_head(grid)] + self.segments.drop_last(), ..self }
    }

    /// The snake with one more segment, at `at`, behind the tail.
    pub open spec fn grown(self, at: Position) -> SnakeView {
        SnakeView { segments: self.segments.push(at), ..self }
    }

    /// The snake with the given life status and nothing else changed.
    pub open spec fn with_alive(self, alive: bool) -> SnakeView {
        SnakeView { alive, ..self }
    }

    /// Whether `p` is the cell of a body segment, that is of any segment but
    /// the head.
    pub open spec fn bites(self, p: Position) -> bool {
        occurs_from(self.segments, 1, p)
    }

    /// Whether the next move ends the game: the head leaves a grid that does
    /// not wrap around, or arrives on a cell that a body segment holds before
    /// the shift.
    pub open spec fn fatal(self, grid: Grid) -> bool {
        hits_wall(grid, self.next_head(grid)) || self.bites(self.next_head(grid))
    }

    /// The snake after `ticks` moves in a row with no collision test between
    /// them.
    pub open spec fn advanced_by(self, grid: Grid, ticks: nat) -> SnakeView
        decreases ticks,
    {
        if ticks == 0 {
            self
        } else {
            self.advanced_by(grid, (ticks - 1) as nat).advanced(grid)
        }
    }
}

impl SnakeView {
    /// Asking twice for the same heading does no more than asking once.
    pub proof fn lemma_turned_idempotent(self, requested: SnakeDirection)
        ensures
            self.turned(requested).turned(requested) == self.turned(requested),
    {
        SnakeDirection::lemma_opposite_involution(requested);
    }

    /// After a move the snake is as long as before and its head is where
    /// `next_head` says; that cell is on the grid if the grid wraps around,
    /// and one step from the old head if it does not.
    pub proof fn lemma_advanced_head(self, grid: Grid)
        requires
            self.wf(),
            grid.wf(),
        ensures
            self.advanced(grid).segments.len() == self.segments.len(),
            self.advanced(grid).head() == self.next_head(grid),
            grid.wraparound ==> grid.contains(self.next_head(grid)),
            !grid.wraparound && grid.contains(self.head()) ==> {
                &&& self.next_head(grid).x == self.head().x + self.heading.dx()
                &&& self.next_head(grid).y == self.head().y + self.heading.dy()
            },
    {
        if grid.wraparound {
            lemma_mod_bound(self.head().x + self.heading.dx(), grid.width as int);
            lemma_mod_bound(self.head().y + self.heading.dy(), grid.height as int);
        }
    }

    /// On a grid that wraps around the head is on the grid after every move,
    /// however many follow one another.
    pub proof fn lemma_wraparound_keeps_head_on_grid(self, grid: Grid, ticks: nat)
        requires
            self.wf(),
            grid.wf(),
            grid.wraparound,
            ticks > 0,
        ensures
            self.advanced_by(grid, ticks).wf(),
            grid.contains(self.advanced_by(grid, ticks).head()),
        decreases ticks,
    {
        let before = self.advanced_by(grid, (ticks - 1) as nat);
        if ticks > 1 {
            self.lemma_wraparound_keeps_head_on_grid(grid, (ticks - 1) as nat);
        }
        assert(before.wf());
        before.lemma_advanced_head(grid);
    }

    /// The collision test made after the shift, on the shifted layout and the
    /// previous tail, decides what the rule asks for: whether the new head
    /// left the grid or met a body segment of the layout before the shift.
    pub proof fn lemma_collision_after_shift(self, grid: Grid)
        requires
            self.wf(),
        ensures
            collision_after_shift(
                grid,
                self.advanced(grid).segments,
                AdvanceResult { prev_tail: self.tail(), new_head: self.next_head(grid) },
            ) == self.fatal(grid),
    {
        let pre = self.segments;
        let post = self.advanced(grid).segments;
        let h = self.next_head(grid);
        let n = pre.len() as int;
        assert(post.len() == n);
        assert(forall|i: int| 1 <= i < n ==> post[i] == pre[i - 1]);
        if occurs_from(post, 2, h) {
            let i = choose|i: int| 2 <= i < post.len() && post[i] == h;
            assert(pre[i - 1] == h);
        }
        if h == self.tail() {
            assert(pre[n - 1] == h);
        }
        if self.bites(h) {
            let j = choose|j: int| 1 <= j < pre.len() && pre[j] == h;
            if j < n - 1 {
                assert(post[j + 1] == h);
            }
        }
    }

    /// Without wraparound, a move that takes the head one cell past an edge of
    /// the grid is fatal, and the collision test after the move finds it so.
    pub proof fn lemma_leaving_the_grid_is_fatal(self, grid: Grid)
        requires
            self.wf(),
            grid.wf(),
            !grid.wraparound,
            ({
                ||| self.next_head(grid).x == -1
                ||| self.next_head(grid).x == grid.width
                ||| self.next_head(grid).y == -1
                ||| self.next_head(grid).y == grid.height
            }),
        ensures
            self.fatal(grid),
            collision_after_shift(
                grid,
                self.advanced(grid).segments,
                AdvanceResult { prev_tail: self.tail(), new_head: self.next_head(grid) },
            ),
    {
        self.lemma_collision_after_shift(grid);
    }

    /// A move that takes the head onto a cell that a body segment holds
    /// before the shift is fatal, and the collision test after the move finds
    /// it so.
    pub proof fn lemma_biting_is_fatal(self, grid: Grid)
        requires
            self.wf(),
            self.bites(self.next_head(grid)),
        ensures
            self.fatal(grid),
            collision_after_shift(
                grid,
                self.advanced(grid).segments,
                AdvanceResult { prev_tail: self.tail(), new_head: self.next_head(grid) },
            ),
    {
        self.lemma_collision_after_shift(grid);
    }

    /// A snake whose segments are on cells of their own stays that way
    /// through a move that is not fatal, and through the growth that may
    /// follow it. On a grid that wraps around, this needs an axis of more than
    /// one cell in each direction.
    pub proof fn lemma_segments_stay_apart(self, grid: Grid)
        requires
            self.wf(),
            grid.wf(),
            grid.contains(self.head()),
            grid.wraparound ==> grid.width > 1 && grid.height > 1,
            self.segments.no_duplicates(),
            !self.fatal(grid),
        ensures
            self.advanced(grid).segments.no_duplicates(),
            self.advanced(grid).grown(self.tail()).segments.no_duplicates(),
    {
        let pre = self.segments;
        let n = pre.len() as int;
        let h = self.next_head(grid);
        let moved = self.advanced(grid).segments;
        let grown = self.advanced(grid).grown(self.tail()).segments;
        self.lemma_advanced_head(grid);
        assert(h != pre[0]) by {
            if self.heading.dx() != 0 {
                lemma_step_leaves_coordinate(
                    pre[0].x as int,
                    grid.width as int,
                    grid.wraparound,
                    self.heading.dx(),
                );
            } else {
                lemma_step_leaves_coordinate(
                    pre[0].y as int,
                    grid.height as int,
                    grid.wraparound,
                    self.heading.dy(),
                );
            }
        }
        assert forall|k: int| 1 <= k < n implies pre[k] != h by {
            if pre[k] == h {
                assert(self.bites(h));
            }
        }
        assert(moved.len() == n && grown.len() == n + 1);
        assert(moved[0] == h && grown[0] == h);
        assert(forall|i: int| 1 <= i < n ==> moved[i] == pre[i - 1]);
        assert(forall|i: int| 1 <= i < n ==> grown[i] == pre[i - 1]);
        assert(grown[n] == pre[n - 1]);
    }
}

/// The snake of one game: a state machine that is alive until a collision
/// test finds it dead, and then stays dead.
#[derive(Debug)]
pub struct SnakeState {
    head: SnakeHead,
    segments: SnakeSegmentsVec,
    alive: bool,
}

impl View for SnakeState {
    type V = SnakeView;

    closed spec fn view(&self) -> SnakeView {
        SnakeView { segments: self.segments@, heading: self.head.direction, alive: self.alive }
    }
}

impl SnakeState {
    /// A living snake with the given cells, head first, and heading; `None`
    /// if there are fewer than two cells.
    pub fn new(segments: Vec<Position>, direction: SnakeDirection) -> (res: Option<SnakeState>)
        ensures
            res is Some <==> segments@.len() >= 2,
            res is Some ==> res->0@ == (SnakeView {
                segments: segments@,
                heading: direction,
                alive: true,
            }),
    {
        if segments.len() >= 2 {
            Some(
                SnakeState {
                    head: SnakeHead { direction },
                    segments: SnakeSegmentsVec(segments),
                    alive: true,
                },
            )
        } else {
            None
        }
    }

    /// The heading of the next move.
    pub fn heading(&self) -> (res: SnakeDirection)
        ensures
            res == self@.heading,
    {
        self.head.direction
    }

    /// Whether the snake is still in play.
    pub fn is_alive(&self) -> (res: bool)
        ensures
            res == self@.alive,
    {
        self.alive
    }

    /// The cells in order, head first.
    pub fn segments(&self) -> (res: &Vec<Position>)
        ensures
            res@ == self@.segments,
    {
        &self.segments.0
    }

    /// How many cells the snake holds, the head included.
    pub fn len(&self) -> (res: usize)
        ensures
            res == self@.segments.len(),
    {
        self.segments.0.len()
    }

    /// The head's cell.
    pub fn head_position(&self) -> (res: Position)
        requires
            self@.wf(),
        ensures
            res == self@.head(),
    {
        self.segments.0[0]
    }

    /// The tail's cell.
    pub fn tail_position(&self) -> (res: Position)
        requires
            self@.wf(),
        ensures
            res == self@.tail(),
    {
        self.segments.0[self.segments.0.len() - 1]
    }

    /// Whether the snake has at least two cells and, if alive, its head on the
    /// grid.
    pub fn is_on_grid(&self, grid: &Grid) -> (res: bool)
        ensures
            res == self@.on_grid(*grid),
    {
        self.segments.0.len() >= 2 && (!self.alive || grid.in_grid(self.segments.0[0]))
    }

    /// Asks for a new heading. The request is taken unless it would reverse
    /// the snake, in which case it is ignored and the heading stays.
    pub fn set_heading(&mut self, requested: SnakeDirection)
        ensures
            final(self)@ == old(self)@.turned(requested),
            final(self)@.heading != old(self)@.heading.opposite(),
            requested == old(self)@.heading.opposite() ==> final(self)@ == old(self)@,
            requested != old(self)@.heading.opposite() ==> final(self)@.heading == requested,
            final(self)@.segments == old(self)@.segments,
            final(self)@.alive == old(self)@.alive,
    {
        if requested != self.head.direction.opposite() {
            self.head.direction = requested;
        }
    }

    /// Where the head goes on the next move.
    pub fn next_head(&self, grid: &Grid) -> (res: Position)
        requires
            self@.wf(),
            grid.wf(),
            grid.contains(self@.head()),
        ensures
            res == self@.next_head(*grid),
    {
        let head = self.segments.0[0];
        let (x, y): (i32, i32) = match self.head.direction {
            SnakeDirection::Left => (head.x - 1, head.y),
            SnakeDirection::Right => (head.x + 1, head.y),
            SnakeDirection::Up => (head.x, head.y + 1),
            SnakeDirection::Down => (head.x, head.y - 1),
        };
        Position {
            x: wrap(x, grid.width, grid.wraparound),
            y: wrap(y, grid.height, grid.wraparound),
        }
    }

    /// Moves a living snake by one cell: the head takes its next cell and
    /// every other segment the cell of the one ahead of it. Reports where the
    /// tail was and where the head is now. A dead snake does not move, and
    /// `None` is returned.
    pub fn advance(&mut self, grid: &Grid) -> (res: Option<AdvanceResult>)
        requires
            old(self)@.on_grid(*grid),
            grid.wf(),
        ensures
            res is Some <==> old(self)@.alive,
            res is None ==> final(self)@ == old(self)@,
            res is Some ==> {
                &&& res->0.prev_tail == old(self)@.tail()
                &&& res->0.new_head == old(self)@.next_head(*grid)
                &&& final(self)@ == old(self)@.advanced(*grid)
                &&& final(self)@.head() == res->0.new_head
                &&& grid.wraparound ==> grid.contains(res->0.new_head)
            },
            final(self)@.segments.len() == old(self)@.segments.len(),
            final(self)@.wf(),
    {
        if !self.alive {
            return None;
        }
        let new_head = self.next_head(grid);
        let prev_tail = self.tail_position();
        proof {
            old(self)@.lemma_advanced_head(*grid);
        }
        self.segments.0.pop();
        self.segments.0.insert(0, new_head);
        assert(self.segments@ =~= seq![new_head] + old(self)@.segments.drop_last());
        Some(AdvanceResult { prev_tail, new_head })
    }

    /// The collision test that follows an advance. The snake dies if the new
    /// head left a grid that does not wrap around, or is on a cell that a body
    /// segment held before the shift; otherwise nothing changes. Returns
    /// whether a collision was found.
    pub fn check_collision(&mut self, grid: &Grid, result: &AdvanceResult) -> (res: bool)
        ensures
            res == collision_after_shift(*grid, old(self)@.segments, *result),
            final(self)@ == old(self)@.with_alive(old(self)@.alive && !res),
            !grid.wraparound && !grid.contains(result.new_head) ==> res && !final(self)@.alive,
            !old(self)@.alive ==> !final(self)@.alive,
    {
        let wall = !grid.wraparound && !grid.in_grid(result.new_head);
        let collided = wall || contains_from(&self.segments.0, 2, result.new_head)
            || result.new_head == result.prev_tail;
        if collided {
            self.alive = false;
        }
        collided
    }

    /// Appends a segment at `at` behind the tail. No other segment moves.
    pub fn grow(&mut self, at: Position)
        ensures
            final(self)@ == old(self)@.grown(at),
            final(self)@.segments.len() == old(self)@.segments.len() + 1,
            final(self)@.tail() == at,
            final(self)@.heading == old(self)@.heading,
            final(self)@.alive == old(self)@.alive,
            forall|i: int|
                0 <= i < old(self)@.segments.len()
                    ==> final(self)@.segments[i] == old(self)@.segments[i],
    {
        self.segments.0.push(at);
    }
}

/// The snake a game starts and restarts with: head on the start cell, heading
/// up, one segment directly below the head.
pub fn spawn_snake() -> (snake: SnakeState)
    ensures
        snake@ == initial_snake(),
{
    let mut segments: Vec<Position> = Vec::new();
    segments.push(Position { x: START_X, y: START_Y });
    segments.push(Position { x: START_X, y: START_Y - 1 });
    let snake = SnakeState {
        head: SnakeHead { direction: SnakeDirection::Up },
        segments: SnakeSegmentsVec(segments),
        alive: true,
    };
    assert(snake@.segments =~= initial_snake().segments);
    snake
}

/// Lengthens the snake if it ate in this tick: the new segment goes where the
/// tail was before the shift. Without an eat event nothing changes.
pub fn grow_snake(
    snake: &mut SnakeState,
    last_tail_position: &LastTailPosition,
    eat: Option<EatEvent>,
)
    requires
        eat is Some ==> last_tail_position.0 is Some,
    ensures
        eat is Some ==> final(snake)@ == old(snake)@.grown(last_tail_position.0->0),
        eat is None ==> final(snake)@ == old(snake)@,
{
    if eat.is_some() {
        match last_tail_position.0 {
            Some(at) => {
                snake.grow(at);
            },
            None => {},
        }
    }
}

} // verus!
