//! Chance: the one place where the interpreter draws random numbers.

use crate::location::Direction;
use rand::Rng;
use vstd::prelude::*;

verus! {

/// A coin toss: `rand::random::<bool>()`, drawn from the generator of the
/// current thread. Either outcome may come back, so nothing is claimed of it.
#[verifier::external_body]
fn toss() -> bool {
    rand::random::<bool>()
}

/// One of `choices`, picked by `rand::Rng::choose` on `rand::thread_rng()`.
///
/// `choose` returns an element of the slice it is given whenever the slice
/// is not empty; which one is up to the generator.
#[verifier::external_body]
fn pick(choices: &Vec<Direction>) -> (chosen: Direction)
    requires
        choices@.len() > 0,
    ensures
        choices@.contains(chosen),
{
    *rand::thread_rng().choose(choices).unwrap()
}

impl Direction {
    /// The vertical direction that a coin toss stands for: up for heads, down
    /// for tails.
    pub fn vertical(heads: bool) -> (direction: Direction)
        ensures
            direction == if heads {
                Direction::Up
            } else {
                Direction::Down
            },
    {
        if heads {
            Direction::Up
        } else {
            Direction::Down
        }
    }

    /// The horizontal direction that a coin toss stands for: right for heads,
    /// left for tails.
    pub fn horizontal(heads: bool) -> (direction: Direction)
        ensures
            direction == if heads {
                Direction::Right
            } else {
                Direction::Left
            },
    {
        if heads {
            Direction::Right
        } else {
            Direction::Left
        }
    }

    /// Up or down, at random.
    pub fn up_or_down() -> (direction: Direction)
        ensures
            direction is Up || direction is Down,
    {
        Direction::vertical(toss())
    }

    /// Right or left, at random.
    pub fn right_or_left() -> (direction: Direction)
        ensures
            direction is Right || direction is Left,
    {
        Direction::horizontal(toss())
    }

    /// Any of the four directions, at random.
    pub fn rand() -> Direction {
        let choices = vec![Direction::Up, Direction::Down, Direction::Left, Direction::Right];
        assert(choices@.len() == 4);
        pick(&choices)
    }
}

} // verus!
