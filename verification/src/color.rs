//! The peg colors and the hint kinds.

use vstd::prelude::*;

verus! {

/// Length of every code in a game: the secret and each guess.
pub const CODE_LENGTH: usize = 5;

/// A peg color. The game offers eight named colors plus `Blank`, the
/// wildcard meaning "no peg placed"; `Blank` takes part in matching like
/// any other value.
#[derive(Debug, PartialEq, Eq, Structural, Copy, Clone)]
pub enum Color {
    Red,
    Brown,
    Yellow,
    Green,
    Black,
    White,
    Orange,
    Blue,
    Blank,
}

/// One hint about a guess: the guessed color sits at the right position
/// (`ExactMatch`), or it occurs elsewhere in the secret at a position not
/// already claimed by another hint (`ColorMatch`).
#[derive(Debug, PartialEq, Eq, Structural, Copy, Clone)]
pub enum Hint {
    ExactMatch,
    ColorMatch,
}

} // verus!
