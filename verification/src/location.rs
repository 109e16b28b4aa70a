//! Coordinates on the program grid and the directions a cursor can travel in.

use vstd::arithmetic::div_mod::{
    lemma_fundamental_div_mod, lemma_fundamental_div_mod_converse, lemma_mod_add_multiples_vanish,
    lemma_mod_bound, lemma_mod_multiples_vanish, lemma_small_mod,
};
use vstd::prelude::*;

verus! {

/// One of the four cardinal directions.
#[derive(Copy, Clone, PartialEq, Eq, Structural, Debug)]
pub enum Direction {
    Up,
    Down,
    Left,
    Right,
}

impl Direction {
    /// The direction pointing the other way: up and down swap, left and right swap.
    pub open spec fn spec_opposite(&self) -> Direction {
        match *self {
            Direction::Up => Direction::Down,
            Direction::Down => Direction::Up,
            Direction::Left => Direction::Right,
            Direction::Right => Direction::Left,
        }
    }

    /// Change of the column when moving one cell in this direction.
    pub open spec fn dx(self) -> int {
        match self {
            Direction::Left => -1,
            Direction::Right => 1,
            _ => 0,
        }
    }

    /// Change of the row when moving one cell in this direction. Rows are
    /// counted downwards, so `Up` decreases the row.
    pub open spec fn dy(self) -> int {
        match self {
            Direction::Up => -1,
            Direction::Down => 1,
            _ => 0,
        }
    }

    #[verifier::when_used_as_spec(spec_opposite)]
    pub fn opposite(&self) -> (other: Direction)
        ensures
            other == self.spec_opposite(),
    {
        match *self {
            Direction::Up => Direction::Down,
            Direction::Left => Direction::Right,
            Direction::Right => Direction::Left,
            Direction::Down => Direction::Up,
        }
    }
}

impl Default for Direction {
    fn default() -> (d: Direction)
        ensures
            d == Direction::Right,
    {
        Direction::Right
    }
}

/// A coordinate along one axis of a torus of the given size, moved by `delta`.
///
/// An axis of size zero has no cells to move between, so the coordinate stays.
pub open spec fn wrapped(coordinate: int, delta: int, dimension: int) -> int {
    if dimension <= 0 {
        coordinate
    } else {
        (coordinate + delta + dimension) % dimension
    }
}

/// A cell position: column `x`, row `y`.
#[derive(Copy, Clone, PartialEq, Eq, Structural, PartialOrd, Ord, Hash, Debug)]
pub struct Location {
    pub x: usize,
    pub y: usize,
}

/// What one step along an axis of positive size amounts to, in terms of the
/// remainder of the coordinate: a step forward from the last cell lands on the
/// first, a step back from the first lands on the last.
proof fn lemma_wrapped_unit(coordinate: int, dimension: int)
    requires
        0 <= coordinate,
        0 < dimension,
    ensures
        0 <= coordinate % dimension < dimension,
        wrapped(coordinate, 1, dimension) == if coordinate % dimension + 1 == dimension {
            0
        } else {
            coordinate % dimension + 1
        },
        wrapped(coordinate, -1, dimension) == if coordinate % dimension == 0 {
            dimension - 1
        } else {
            coordinate % dimension - 1
        },
{
    let q = coordinate / dimension;
    let r = coordinate % dimension;
    lemma_fundamental_div_mod(coordinate, dimension);
    lemma_mod_bound(coordinate, dimension);
    if r + 1 == dimension {
        assert(coordinate + 1 + dimension == (q + 2) * dimension + 0) by (nonlinear_arith)
            requires
                coordinate == dimension * q + r,
                r + 1 == dimension,
        ;
        lemma_fundamental_div_mod_converse(coordinate + 1 + dimension, dimension, q + 2, 0);
    } else {
        assert(coordinate + 1 + dimension == (q + 1) * dimension + (r + 1)) by (nonlinear_arith)
            requires
                coordinate == dimension * q + r,
        ;
        lemma_fundamental_div_mod_converse(coordinate + 1 + dimension, dimension, q + 1, r + 1);
    }
    if r == 0 {
        assert(coordinate - 1 + dimension == q * dimension + (dimension - 1)) by (nonlinear_arith)
            requires
                coordinate == dimension * q + r,
                r == 0,
        ;
        lemma_fundamental_div_mod_converse(coordinate - 1 + dimension, dimension, q, dimension - 1);
    } else {
        assert(coordinate - 1 + dimension == (q + 1) * dimension + (r - 1)) by (nonlinear_arith)
            requires
                coordinate == dimension * q + r,
        ;
        lemma_fundamental_div_mod_converse(coordinate - 1 + dimension, dimension, q + 1, r - 1);
    }
}

/// Moving by `first` and then by `second` along an axis is moving by their
/// sum.
proof fn lemma_wrapped_sum(coordinate: int, first: int, second: int, dimension: int)
    requires
        0 < dimension,
    ensures
        0 <= wrapped(coordinate, first, dimension) < dimension,
        wrapped(wrapped(coordinate, first, dimension), second, dimension) == wrapped(
            coordinate,
            first + second,
            dimension,
        ),
{
    let whole = coordinate + first + dimension;
    let q = whole / dimension;
    let r = whole % dimension;
    lemma_fundamental_div_mod(whole, dimension);
    lemma_mod_bound(whole, dimension);
    lemma_mod_multiples_vanish(q, r + second + dimension, dimension);
    assert(dimension * q + (r + second + dimension) == dimension + (coordinate + first + second
        + dimension));
    lemma_mod_add_multiples_vanish(coordinate + first + second + dimension, dimension);
}

/// One cell towards higher coordinates on an axis of the given size.
fn forward(coordinate: usize, dimension: usize) -> (next: usize)
    ensures
        next == wrapped(coordinate as int, 1, dimension as int),
{
    if dimension == 0 {
        coordinate
    } else {
        proof {
            lemma_wrapped_unit(coordinate as int, dimension as int);
        }
        let r: usize = coordinate % dimension;
        if r + 1 == dimension {
            0
        } else {
            r + 1
        }
    }
}

/// One cell towards lower coordinates on an axis of the given size.
fn backward(coordinate: usize, dimension: usize) -> (next: usize)
    ensures
        next == wrapped(coordinate as int, -1, dimension as int),
{
    if dimension == 0 {
        coordinate
    } else {
        proof {
            lemma_wrapped_unit(coordinate as int, dimension as int);
        }
        let r: usize = coordinate % dimension;
        if r == 0 {
            dimension - 1
        } else {
            r - 1
        }
    }
}

impl Location {
    /// The cell reached from this one by a single move in `direction` on a
    /// torus `width` columns wide and `height` rows high.
    pub open spec fn spec_step(self, direction: Direction, width: usize, height: usize) -> Location {
        self.travel(direction, 1, width, height)
    }

    /// The cell reached from this one by `steps` moves in `direction`.
    pub open spec fn travel(self, direction: Direction, steps: nat, width: usize, height: usize) -> Location {
        match direction {
            Direction::Left | Direction::Right => Location {
                x: wrapped(self.x as int, steps * direction.dx(), width as int) as usize,
                y: self.y,
            },
            Direction::Up | Direction::Down => Location {
                x: self.x,
                y: wrapped(self.y as int, steps * direction.dy(), height as int) as usize,
            },
        }
    }

    /// Whether this cell lies on the torus, along each axis that has any cells.
    pub open spec fn within(self, width: usize, height: usize) -> bool {
        &&& width > 0 ==> self.x < width
        &&& height > 0 ==> self.y < height
    }

    /// Whether this cell lies on the torus along the axis that `direction`
    /// runs on.
    pub open spec fn within_along(self, direction: Direction, width: usize, height: usize) -> bool {
        match direction {
            Direction::Left | Direction::Right => width > 0 ==> self.x < width,
            Direction::Up | Direction::Down => height > 0 ==> self.y < height,
        }
    }

    /// Makes the location at column `x`, row `y`.
    pub fn new(x: usize, y: usize) -> (loc: Location)
        ensures
            loc == (Location { x, y }),
    {
        Location { x, y }
    }

    /// Moves one cell in `direction`, wrapping around the edges of a grid
    /// `width` columns wide and `height` rows high.
    pub fn step(&self, direction: Direction, width: usize, height: usize) -> (next: Location)
        ensures
            next == self.spec_step(direction, width, height),
            self.within(width, height) ==> next.within(width, height),
    {
        proof {
            if self.within(width, height) {
                self.lemma_step_stays_within(direction, width, height);
            }
        }
        let y = match direction {
            Direction::Up => backward(self.y, height),
            Direction::Down => forward(self.y, height),
            _ => self.y,
        };
        let x = match direction {
            Direction::Right => forward(self.x, width),
            Direction::Left => backward(self.x, width),
            _ => self.x,
        };
        Location { x, y }
    }

    /// Moves this location one cell in `direction` in place, and returns the
    /// new position.
    pub fn step_mut(&mut self, direction: Direction, width: usize, height: usize) -> (next: Location)
        ensures
            *final(self) == old(self).spec_step(direction, width, height),
            old(self).within(width, height) ==> final(self).within(width, height),
            next == *final(self),
    {
        let next = self.step(direction, width, height);
        self.x = next.x;
        self.y = next.y;
        *self
    }

    /// A step never leaves the torus: from a cell on it, the next cell is on
    /// it too.
    pub proof fn lemma_step_stays_within(self, direction: Direction, width: usize, height: usize)
        requires
            self.within(width, height),
        ensures
            self.spec_step(direction, width, height).within(width, height),
    {
        if width > 0 {
            lemma_wrapped_unit(self.x as int, width as int);
        }
        if height > 0 {
            lemma_wrapped_unit(self.y as int, height as int);
        }
    }

    /// A step followed by a step in the opposite direction leads back to the
    /// starting cell, for every cell that lies on the torus along the axis of
    /// travel.
    pub proof fn lemma_step_round_trip(self, direction: Direction, width: usize, height: usize)
        requires
            self.within_along(direction, width, height),
        ensures
            self.spec_step(direction, width, height).spec_step(
                direction.spec_opposite(),
                width,
                height,
            ) == self,
    {
        let there = self.spec_step(direction, width, height);
        if width > 0 {
            lemma_wrapped_unit(self.x as int, width as int);
            lemma_wrapped_unit(there.x as int, width as int);
            if self.x < width {
                lemma_small_mod(self.x as nat, width as nat);
            }
            if there.x < width {
                lemma_small_mod(there.x as nat, width as nat);
            }
        }
        if height > 0 {
            lemma_wrapped_unit(self.y as int, height as int);
            lemma_wrapped_unit(there.y as int, height as int);
            if self.y < height {
                lemma_small_mod(self.y as nat, height as nat);
            }
            if there.y < height {
                lemma_small_mod(there.y as nat, height as nat);
            }
        }
    }

    /// Travelling is stepping again and again: one more step after `steps`
    /// steps is `steps + 1` steps, and every cell on the way lies on the
    /// torus along the axis of travel.
    pub proof fn lemma_travel_step(self, direction: Direction, steps: nat, width: usize, height: usize)
        requires
            self.within_along(direction, width, height),
        ensures
            self.travel(direction, 0, width, height) == self,
            self.travel(direction, steps, width, height).within_along(direction, width, height),
            self.travel(direction, steps, width, height).spec_step(direction, width, height)
                == self.travel(direction, steps + 1, width, height),
    {
        match direction {
            Direction::Left | Direction::Right => {
                if width > 0 {
                    lemma_small_mod(self.x as nat, width as nat);
                    lemma_mod_add_multiples_vanish(self.x as int, width as int);
                    lemma_wrapped_sum(self.x as int, steps * direction.dx(), direction.dx(), width as int);
                    assert(steps * direction.dx() + direction.dx() == (steps + 1) * direction.dx())
                        by (nonlinear_arith);
                }
            },
            Direction::Up | Direction::Down => {
                if height > 0 {
                    lemma_small_mod(self.y as nat, height as nat);
                    lemma_mod_add_multiples_vanish(self.y as int, height as int);
                    lemma_wrapped_sum(self.y as int, steps * direction.dy(), direction.dy(), height as int);
                    assert(steps * direction.dy() + direction.dy() == (steps + 1) * direction.dy())
                        by (nonlinear_arith);
                }
            },
        }
    }

    /// Travelling once around the torus leads back to the starting cell.
    pub proof fn lemma_travel_around(self, direction: Direction, width: usize, height: usize)
        requires
            self.within_along(direction, width, height),
        ensures
            (direction is Left || direction is Right) && width > 0 ==> self.travel(
                direction,
                width as nat,
                width,
                height,
            ) == self,
            (direction is Up || direction is Down) && height > 0 ==> self.travel(
                direction,
                height as nat,
                width,
                height,
            ) == self,
            (direction is Left || direction is Right) && width == 0 ==> self.travel(
                direction,
                1,
                width,
                height,
            ) == self,
            (direction is Up || direction is Down) && height == 0 ==> self.travel(
                direction,
                1,
                width,
                height,
            ) == self,
    {
        match direction {
            Direction::Left | Direction::Right => {
                if width > 0 {
                    lemma_small_mod(self.x as nat, width as nat);
                    lemma_mod_multiples_vanish(direction.dx() + 1, self.x as int, width as int);
                    assert(self.x + width * direction.dx() + width == width * (direction.dx() + 1)
                        + self.x) by (nonlinear_arith);
                }
            },
            Direction::Up | Direction::Down => {
                if height > 0 {
                    lemma_small_mod(self.y as nat, height as nat);
                    lemma_mod_multiples_vanish(direction.dy() + 1, self.y as int, height as int);
                    assert(self.y + height * direction.dy() + height == height * (direction.dy()
                        + 1) + self.y) by (nonlinear_arith);
                }
            },
        }
    }
}

impl Default for Location {
    fn default() -> (loc: Location)
        ensures
            loc == (Location { x: 0, y: 0 }),
    {
        Location { x: 0, y: 0 }
    }
}

} // verus!
