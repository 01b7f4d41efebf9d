//! Text rendering of guesses and hints: the colored circle for each peg
//! and the glyph for each hint, as the terminal shows them.

use vstd::prelude::*;
use vstd::string::StringExecFns;

use crate::color::Color;
use crate::color::Hint;

verus! {

/// The text of one peg: a circle wrapped in the color's terminal escape
/// sequence, or the hollow circle for the blank peg.
pub open spec fn circle_text(c: Color) -> Seq<char> {
    match c {
        Color::Red => "\u{1b}[31m\u{2b24}\u{1b}[0m"@,
        Color::Brown => "\u{1b}[38;2;210;105;30m\u{2b24}\u{1b}[0m"@,
        Color::Yellow => "\u{1b}[93m\u{2b24}\u{1b}[0m"@,
        Color::Green => "\u{1b}[32m\u{2b24}\u{1b}[0m"@,
        Color::Black => "\u{1b}[90m\u{2b24}\u{1b}[0m"@,
        Color::White => "\u{1b}[37m\u{2b24}\u{1b}[0m"@,
        Color::Orange => "\u{1b}[33m\u{2b24}\u{1b}[0m"@,
        Color::Blue => "\u{1b}[94m\u{2b24}\u{1b}[0m"@,
        Color::Blank => "\u{25ef}"@,
    }
}

/// The text of a whole guess: its pegs' circles, in order.
pub open spec fn guess_text(g: Seq<Color>) -> Seq<char>
    decreases g.len(),
{
    if g.len() == 0 {
        Seq::empty()
    } else {
        guess_text(g.drop_last()) + circle_text(g.last())
    }
}

/// The glyph of one hint: `+` for an exact match, `-` for a color match.
pub open spec fn hint_text(h: Hint) -> Seq<char> {
    match h {
        Hint::ExactMatch => "+"@,
        Hint::ColorMatch => "-"@,
    }
}

/// The text of a hint sequence: one glyph per hint, in order.
pub open spec fn hints_text(hs: Seq<Hint>) -> Seq<char>
    decreases hs.len(),
{
    if hs.len() == 0 {
        Seq::empty()
    } else {
        hints_text(hs.drop_last()) + hint_text(hs.last())
    }
}

/// The circle of one peg.
fn circle(color: &Color) -> (r: &'static str)
    ensures
        r@ == circle_text(*color),
{
    match color {
        Color::Red => "\u{1b}[31m\u{2b24}\u{1b}[0m",
        Color::Brown => "\u{1b}[38;2;210;105;30m\u{2b24}\u{1b}[0m",
        Color::Yellow => "\u{1b}[93m\u{2b24}\u{1b}[0m",
        Color::Green => "\u{1b}[32m\u{2b24}\u{1b}[0m",
        Color::Black => "\u{1b}[90m\u{2b24}\u{1b}[0m",
        Color::White => "\u{1b}[37m\u{2b24}\u{1b}[0m",
        Color::Orange => "\u{1b}[33m\u{2b24}\u{1b}[0m",
        Color::Blue => "\u{1b}[94m\u{2b24}\u{1b}[0m",
        Color::Blank => "\u{25ef}",
    }
}

/// Render a guess as one colored circle per peg.
pub fn print_guess(guess: &Vec<Color>) -> (r: String)
    ensures
        r@ == guess_text(guess@),
{
    let n = guess.len();
    let mut r = String::new();
    let mut i: usize = 0;
    while i < n
        invariant
            i <= n,
            n == guess@.len(),
            r@ == guess_text(guess@.take(i as int)),
        decreases n - i,
    {
        r.append(circle(&guess[i]));
        proof {
            assert(guess@.take(i as int + 1).drop_last() =~= guess@.take(i as int));
            assert(guess@.take(i as int + 1).last() == guess@[i as int]);
        }
        i += 1;
    }
    proof {
        assert(guess@.take(n as int) =~= guess@);
    }
    r
}

/// Render hints as one glyph per hint, in order.
pub fn print_hints(hints: &Vec<Hint>) -> (r: String)
    ensures
        r@ == hints_text(hints@),
{
    let n = hints.len();
    let mut r = String::new();
    let mut i: usize = 0;
    while i < n
        invariant
            i <= n,
            n == hints@.len(),
            r@ == hints_text(hints@.take(i as int)),
        decreases n - i,
    {
        let glyph: &str = match hints[i] {
            Hint::ExactMatch => "+",
            Hint::ColorMatch => "-",
        };
        r.append(glyph);
        proof {
            assert(hints@.take(i as int + 1).drop_last() =~= hints@.take(i as int));
            assert(hints@.take(i as int + 1).last() == hints@[i as int]);
        }
        i += 1;
    }
    proof {
        assert(hints@.take(n as int) =~= hints@);
    }
    r
}

/// The plural suffix for a count of attempts: empty for one, `s` otherwise.
pub fn pluralize(attempts: &isize) -> (r: &'static str)
    ensures
        *attempts == 1 ==> r@ == ""@,
        *attempts != 1 ==> r@ == "s"@,
{
    if *attempts == 1 {
        ""
    } else {
        "s"
    }
}

} // verus!
