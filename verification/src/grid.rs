//! Grid coordinates: cells, bounds and wraparound arithmetic.

use vstd::arithmetic::div_mod::{
    lemma_fundamental_div_mod, lemma_fundamental_div_mod_converse, lemma_mod_bound,
    lemma_small_mod,
};
use vstd::prelude::*;

verus! {

/// Width of the standard grid, in cells.
pub const GRID_WIDTH: i32 = 11;

/// Height of the standard grid, in cells.
pub const GRID_HEIGHT: i32 = 11;

/// Whether the standard grid wraps around at its edges.
pub const SCREEN_WRAP: bool = true;

/// A position in the grid.
#[derive(Clone, Copy, PartialEq, Eq, Structural, Debug)]
pub struct Position {
    pub x: i32,
    pub y: i32,
}

impl Default for Position {
    fn default() -> (p: Position)
        ensures
            p == (Position { x: 0, y: 0 }),
    {
        Position { x: 0, y: 0 }
    }
}

/// The mathematical remainder of a negative `x` by a positive `d`, from the
/// remainder of `-x`: the two add up to `d` unless `d` divides `x`.
proof fn lemma_remainder_of_negative(x: int, d: int)
    requires
        x < 0,
        d > 0,
    ensures
        x % d == (if (-x) % d == 0 {
            0
        } else {
            d - (-x) % d
        }),
{
    let m = -x;
    let q = m / d;
    let r = m % d;
    lemma_fundamental_div_mod(m, d);
    lemma_mod_bound(m, d);
    if r == 0 {
        assert(x == (-q) * d + 0) by (nonlinear_arith)
            requires
                m == d * q + r,
                r == 0,
                x == -m,
        ;
        lemma_fundamental_div_mod_converse(x, d, -q, 0);
    } else {
        assert(x == (-q - 1) * d + (d - r)) by (nonlinear_arith)
            requires
                m == d * q + r,
                x == -m,
        ;
        lemma_fundamental_div_mod_converse(x, d, -q - 1, d - r);
    }
}

/// Performs the modulo operation, adjusted to always return a non-negative
/// result: the remainder of `dividend` by a positive `divisor`, in
/// `[0, divisor)`.
pub fn pos_modulo(dividend: i32, divisor: i32) -> (res: i32)
    requires
        divisor > 0,
    ensures
        res == (dividend as int) % (divisor as int),
        0 <= res < divisor,
{
    let mut res: i32 = dividend % divisor;
    proof {
        lemma_mod_bound(dividend as int, divisor as int);
        if dividend < 0 {
            lemma_remainder_of_negative(dividend as int, divisor as int);
            lemma_mod_bound(-(dividend as int), divisor as int);
        }
    }
    if res < 0 {
        res += divisor;
    }
    res
}

/// What wrapping does to one coordinate on an axis of `size` cells: with
/// wraparound the remainder by `size`, without it nothing.
pub open spec fn wrap_spec(coord: int, size: int, wraparound: bool) -> int {
    if wraparound {
        coord % size
    } else {
        coord
    }
}

/// One step along an axis of at least two cells never ends where it began,
/// whether the axis wraps around or not.
pub proof fn lemma_step_leaves_coordinate(coord: int, size: int, wraparound: bool, delta: int)
    requires
        0 <= coord < size,
        delta == 1 || delta == -1,
        wraparound ==> size > 1,
    ensures
        wrap_spec(coord + delta, size, wraparound) != coord,
{
    if wraparound {
        if 0 <= coord + delta < size {
            lemma_small_mod((coord + delta) as nat, size as nat);
        } else if delta == 1 {
            assert(size == 1 * size + 0);
            lemma_fundamental_div_mod_converse(size, size, 1, 0);
        } else {
            assert(-1 == -1 * size + (size - 1));
            lemma_fundamental_div_mod_converse(-1, size, -1, size - 1);
        }
    }
}

/// Wraps `coord` onto an axis of `size` cells. With wraparound the result is
/// the non-negative remainder, in `[0, size)`; without it the coordinate comes
/// back unchanged.
pub fn wrap(coord: i32, size: i32, wraparound: bool) -> (res: i32)
    requires
        wraparound ==> size > 0,
    ensures
        res == wrap_spec(coord as int, size as int, wraparound),
        wraparound ==> 0 <= res < size,
        !wraparound ==> res == coord,
{
    if wraparound {
        pos_modulo(coord, size)
    } else {
        coord
    }
}

/// Whether `coord` lies on an axis of `size` cells.
pub fn in_bounds(coord: i32, size: i32) -> (res: bool)
    ensures
        res == (0 <= coord < size),
{
    0 <= coord && coord < size
}

/// Whether `p` is the position at some index from `from` on in `positions`.
pub open spec fn occurs_from(positions: Seq<Position>, from: int, p: Position) -> bool {
    exists|i: int| from <= i < positions.len() && positions[i] == p
}

/// Searches `positions` for `p`, starting at index `from`.
pub fn contains_from(positions: &Vec<Position>, from: usize, p: Position) -> (res: bool)
    ensures
        res == occurs_from(positions@, from as int, p),
{
    let mut i: usize = from;
    while i < positions.len()
        invariant
            from <= i,
            forall|k: int| from <= k < i && k < positions.len() ==> positions[k] != p,
        decreases positions.len() - i,
    {
        if positions[i] == p {
            return true;
        }
        i += 1;
    }
    false
}

/// The playing field: its size in cells and what happens at its edges.
#[derive(Clone, Copy, PartialEq, Eq, Structural, Debug)]
pub struct Grid {
    pub width: i32,
    pub height: i32,
    pub wraparound: bool,
}

impl Grid {
    /// A grid has at least one cell in each direction.
    pub open spec fn wf(self) -> bool {
        self.width > 0 && self.height > 0
    }

    /// Whether `p` is one of the grid's cells.
    pub open spec fn contains(self, p: Position) -> bool {
        0 <= p.x < self.width && 0 <= p.y < self.height
    }

    /// Where `p` lands once both coordinates are wrapped.
    pub open spec fn wrapped(self, p: Position) -> Position {
        Position {
            x: wrap_spec(p.x as int, self.width as int, self.wraparound) as i32,
            y: wrap_spec(p.y as int, self.height as int, self.wraparound) as i32,
        }
    }

    /// A grid of `width` by `height` cells, or `None` if either is not positive.
    pub fn new(width: i32, height: i32, wraparound: bool) -> (res: Option<Grid>)
        ensures
            res is Some <==> width > 0 && height > 0,
            res is Some ==> res->0 == (Grid { width, height, wraparound }),
    {
        if width > 0 && height > 0 {
            Some(Grid { width, height, wraparound })
        } else {
            None
        }
    }

    /// The standard grid: 11 by 11 cells, wrapping around.
    pub fn standard() -> (grid: Grid)
        ensures
            grid == (Grid { width: GRID_WIDTH, height: GRID_HEIGHT, wraparound: SCREEN_WRAP }),
            grid.wf(),
    {
        Grid { width: GRID_WIDTH, height: GRID_HEIGHT, wraparound: SCREEN_WRAP }
    }

    /// Whether the grid has at least one cell in each direction.
    pub fn is_valid(&self) -> (res: bool)
        ensures
            res == self.wf(),
    {
        self.width > 0 && self.height > 0
    }

    /// Whether `p` is one of the grid's cells.
    pub fn in_grid(&self, p: Position) -> (res: bool)
        ensures
            res == self.contains(p),
    {
        in_bounds(p.x, self.width) && in_bounds(p.y, self.height)
    }
}

/// Moves a position onto the grid: with wraparound both coordinates are
/// wrapped, so the result is a cell of the grid; without it the position is
/// left where it is.
pub fn snap_to_grid(position: Position, grid: &Grid) -> (res: Position)
    requires
        grid.wf(),
    ensures
        res == grid.wrapped(position),
        grid.wraparound ==> grid.contains(res),
        !grid.wraparound ==> res == position,
{
    Position {
        x: wrap(position.x, grid.width, grid.wraparound),
        y: wrap(position.y, grid.height, grid.wraparound),
    }
}

} // verus!
