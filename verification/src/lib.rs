//! An interpreter core for a two-dimensional, stack-based instruction language.
//!
//! A program is a grid of single-character instructions. A cursor walks the
//! grid in one of four directions, wrapping around its edges, and every
//! instruction it lands on acts on one shared stack of integers.

pub mod arith;
pub mod chance;
pub mod input;
pub mod location;
pub mod machine;
pub mod source;
pub mod stack;
pub mod state;
pub mod util;
