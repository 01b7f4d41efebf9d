//! A verified core for the Mastermind code-breaking game.
//!
//! A hidden code of colored pegs is compared against a player's guess and
//! scored with hints: one `ExactMatch` per position where color and place
//! agree, and one `ColorMatch` per remaining guess peg whose color is still
//! available elsewhere in the secret, each secret peg supplying at most one
//! hint. A small session state machine drives the guessing rounds.

pub mod color;
pub mod display;
pub mod parse;
pub mod scoring;
pub mod session;

pub use color::Color;
pub use color::Hint;
pub use scoring::get_hints;
pub use scoring::is_correct;
