//! Food placement: which cells are free, and the random choice among them.

use crate::controller::EatEvent;
use crate::grid::{contains_from, Grid, Position};
use rand::seq::SliceRandom;
use vstd::prelude::*;

verus! {

/// The one piece of food on the grid.
#[derive(Clone, Copy, PartialEq, Eq, Structural, Debug)]
pub struct Food {
    pub position: Position,
}

/// Why no food could be placed.
#[derive(Clone, Copy, PartialEq, Eq, Structural, Debug)]
pub enum FoodError {
    /// Every cell of the grid is occupied: the game cannot go on.
    GridFull,
}

/// Whether `p` is a cell of the grid that none of `used` holds.
pub open spec fn is_open(grid: Grid, used: Seq<Position>, p: Position) -> bool {
    grid.contains(p) && !used.contains(p)
}

/// Whether `used` leaves no cell of the grid free.
pub open spec fn grid_full(grid: Grid, used: Seq<Position>) -> bool {
    forall|p: Position| #[trigger] grid.contains(p) ==> used.contains(p)
}

/// The order in which the cells are walked: column by column, and upwards
/// within a column.
pub open spec fn walked_before(a: Position, b: Position) -> bool {
    a.x < b.x || (a.x == b.x && a.y < b.y)
}

/// Whether `open` lists the free cells of the grid: every one of them, nothing
/// else, each once, in the order of the walk.
pub open spec fn lists_open_cells(open: Seq<Position>, grid: Grid, used: Seq<Position>) -> bool {
    &&& forall|p: Position| #[trigger] open.contains(p) ==> is_open(grid, used, p)
    &&& forall|p: Position| #[trigger] is_open(grid, used, p) ==> open.contains(p)
    &&& forall|i: int, j: int|
        0 <= i < j < open.len() ==> walked_before(#[trigger] open[i], #[trigger] open[j])
}

/// The generator that `rand` keeps for each thread.
#[verifier::external_type_specification]
#[verifier::external_body]
pub struct ExThreadRng(rand::rngs::ThreadRng);

/// `rand::thread_rng` hands out the calling thread's generator. Nothing is
/// claimed of it.
pub assume_specification[ rand::thread_rng ]() -> (rng: rand::rngs::ThreadRng)
;

/// Calls `SliceRandom::choose` of `rand` on the candidates. The call returns
/// nothing if and only if there is no candidate, and otherwise one of the
/// candidates; which one is up to the generator.
#[verifier::external_body]
fn choose_position(
    candidates: &Vec<Position>,
    rng: &mut rand::rngs::ThreadRng,
) -> (choice: Option<Position>)
    ensures
        choice is None <==> candidates@.len() == 0,
        choice is Some ==> candidates@.contains(choice->0),
{
    candidates.choose(rng).copied()
}

/// Lists the cells of the grid that none of `used_positions` holds, column by
/// column and upwards within a column.
pub fn open_positions(used_positions: &Vec<Position>, grid: &Grid) -> (open: Vec<Position>)
    requires
        grid.wf(),
    ensures
        lists_open_cells(open@, *grid, used_positions@),
{
    let mut open: Vec<Position> = Vec::new();
    let mut i: i32 = 0;
    while i < grid.width
        invariant
            grid.wf(),
            0 <= i <= grid.width,
            forall|p: Position| #[trigger]
                open@.contains(p) ==> is_open(*grid, used_positions@, p) && p.x < i,
            forall|p: Position| #[trigger]
                is_open(*grid, used_positions@, p) && p.x < i ==> open@.contains(p),
            forall|a: int, b: int|
                0 <= a < b < open@.len() ==> walked_before(#[trigger] open@[a], #[trigger] open@[b]),
        decreases grid.width - i,
    {
        let mut j: i32 = 0;
        while j < grid.height
            invariant
                grid.wf(),
                0 <= i < grid.width,
                0 <= j <= grid.height,
                forall|p: Position| #[trigger]
                    open@.contains(p) ==> {
                        &&& is_open(*grid, used_positions@, p)
                        &&& walked_before(p, Position { x: i, y: j })
                    },
                forall|p: Position| #[trigger]
                    is_open(*grid, used_positions@, p) && walked_before(p, Position { x: i, y: j })
                        ==> open@.contains(p),
                forall|a: int, b: int|
                    0 <= a < b < open@.len()
                        ==> walked_before(#[trigger] open@[a], #[trigger] open@[b]),
            decreases grid.height - j,
        {
            let candidate = Position { x: i, y: j };
            let ghost before = open@;
            if !contains_from(used_positions, 0, candidate) {
                open.push(candidate);
                proof {
                    assert(open@[before.len() as int] == candidate);
                    assert forall|a: int, b: int| 0 <= a < b < open@.len() implies walked_before(
                        #[trigger] open@[a],
                        #[trigger] open@[b],
                    ) by {
                        if b == before.len() {
                            assert(before.contains(before[a]));
                        } else {
                            assert(open@[a] == before[a] && open@[b] == before[b]);
                        }
                    }
                }
            }
            proof {
                let next = Position { x: i, y: (j + 1) as i32 };
                assert forall|p: Position| #[trigger] open@.contains(p) implies {
                    &&& is_open(*grid, used_positions@, p)
                    &&& walked_before(p, next)
                } by {
                    let k = choose|k: int| 0 <= k < open@.len() && open@[k] == p;
                    if k < before.len() {
                        assert(before.contains(before[k]));
                    }
                }
                assert forall|p: Position| #[trigger]
                    is_open(*grid, used_positions@, p) && walked_before(p, next)
                implies open@.contains(p) by {
                    if p == candidate {
                        assert(open@[before.len() as int] == p);
                    } else {
                        assert(walked_before(p, candidate));
                        let k = choose|k: int| 0 <= k < before.len() && before[k] == p;
                        assert(open@[k] == p);
                    }
                }
            }
            j += 1;
        }
        i += 1;
    }
    open
}

/// Turns the outcome of the random choice into the food to spawn: no choice
/// means that no cell was free.
pub fn food_from_choice(choice: Option<Position>) -> (res: Result<Food, FoodError>)
    ensures
        res == (match choice {
            Some(position) => Ok::<Food, FoodError>(Food { position }),
            None => Err::<Food, FoodError>(FoodError::GridFull),
        }),
{
    match choice {
        Some(position) => Ok(Food { position }),
        None => Err(FoodError::GridFull),
    }
}

/// Places new food on a cell of the grid that none of `used_positions` holds,
/// chosen at random among all such cells. Fails if and only if there is no
/// such cell.
pub fn food_spawner(used_positions: &Vec<Position>, grid: &Grid) -> (res: Result<Food, FoodError>)
    requires
        grid.wf(),
    ensures
        res is Err <==> grid_full(*grid, used_positions@),
        res is Err ==> res->Err_0 == FoodError::GridFull,
        res is Ok ==> is_open(*grid, used_positions@, res->Ok_0.position),
        res is Ok ==> !used_positions@.contains(res->Ok_0.position),
{
    let open = open_positions(used_positions, grid);
    let mut rng = rand::thread_rng();
    let choice = choose_position(&open, &mut rng);
    proof {
        if open@.len() > 0 {
            assert(open@.contains(open@[0]));
            assert(grid.contains(open@[0]));
        } else {
            assert forall|p: Position| #[trigger]
                grid.contains(p) implies used_positions@.contains(p) by {
                if is_open(*grid, used_positions@, p) {
                    assert(open@.contains(p));
                }
            }
        }
    }
    food_from_choice(choice)
}

/// Places new food if the old one was eaten in this tick; without an eat event
/// nothing is placed.
pub fn spawn_new_food(
    eat: Option<EatEvent>,
    used_positions: &Vec<Position>,
    grid: &Grid,
) -> (res: Result<Option<Food>, FoodError>)
    requires
        grid.wf(),
    ensures
        eat is None ==> res == Ok::<Option<Food>, FoodError>(None),
        eat is Some ==> (res is Err <==> grid_full(*grid, used_positions@)),
        eat is Some && res is Ok ==> {
            &&& res->Ok_0 is Some
            &&& is_open(*grid, used_positions@, res->Ok_0->0.position)
        },
{
    if eat.is_some() {
        match food_spawner(used_positions, grid) {
            Ok(food) => Ok(Some(food)),
            Err(error) => Err(error),
        }
    } else {
        Ok(None)
    }
}

} // verus!
