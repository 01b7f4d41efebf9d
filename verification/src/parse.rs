//! Turning a line of text into colors: the color vocabulary, the
//! space-separated tokenization, and the guess validation.

use vstd::prelude::*;
use vstd::string::StrSliceExecFns;

use crate::color::CODE_LENGTH;
use crate::color::Color;

verus! {

/// A token did not name a color.
#[derive(Debug, PartialEq, Eq, Structural, Copy, Clone)]
pub struct ParseColorError;

/// Lowers an ASCII capital letter; leaves every other character alone.
pub open spec fn lower_char(c: char) -> char {
    if c == 'A' {
        'a'
    } else if c == 'B' {
        'b'
    } else if c == 'C' {
        'c'
    } else if c == 'D' {
        'd'
    } else if c == 'E' {
        'e'
    } else if c == 'F' {
        'f'
    } else if c == 'G' {
        'g'
    } else if c == 'H' {
        'h'
    } else if c == 'I' {
        'i'
    } else if c == 'J' {
        'j'
    } else if c == 'K' {
        'k'
    } else if c == 'L' {
        'l'
    } else if c == 'M' {
        'm'
    } else if c == 'N' {
        'n'
    } else if c == 'O' {
        'o'
    } else if c == 'P' {
        'p'
    } else if c == 'Q' {
        'q'
    } else if c == 'R' {
        'r'
    } else if c == 'S' {
        's'
    } else if c == 'T' {
        't'
    } else if c == 'U' {
        'u'
    } else if c == 'V' {
        'v'
    } else if c == 'W' {
        'w'
    } else if c == 'X' {
        'x'
    } else if c == 'Y' {
        'y'
    } else if c == 'Z' {
        'z'
    } else {
        c
    }
}

/// The text lowered character by character.
pub open spec fn lower_seq(s: Seq<char>) -> Seq<char> {
    s.map_values(|c: char| lower_char(c))
}

/// The color named by a token, if any: the vocabulary is the nine
/// lowercase color names.
pub open spec fn color_of_token(t: Seq<char>) -> Option<Color> {
    if t == "red"@ {
        Some(Color::Red)
    } else if t == "brown"@ {
        Some(Color::Brown)
    } else if t == "yellow"@ {
        Some(Color::Yellow)
    } else if t == "green"@ {
        Some(Color::Green)
    } else if t == "black"@ {
        Some(Color::Black)
    } else if t == "white"@ {
        Some(Color::White)
    } else if t == "orange"@ {
        Some(Color::Orange)
    } else if t == "blue"@ {
        Some(Color::Blue)
    } else if t == "none"@ {
        Some(Color::Blank)
    } else {
        None
    }
}

/// The pieces of `s` between single space characters, in order; empty
/// pieces are kept, so a run of two spaces yields an empty token.
pub open spec fn split_spec(s: Seq<char>) -> Seq<Seq<char>>
    decreases s.len(),
{
    if s.len() == 0 {
        seq![Seq::<char>::empty()]
    } else {
        let rest = split_spec(s.drop_last());
        if s.last() == ' ' {
            rest.push(Seq::empty())
        } else {
            rest.update(rest.len() - 1, rest.last().push(s.last()))
        }
    }
}

/// A line is a valid guess when it splits into exactly `CODE_LENGTH`
/// tokens and every token names a color.
pub open spec fn valid_guess(s: Seq<char>) -> bool {
    &&& split_spec(s).len() == CODE_LENGTH
    &&& forall|i: int|
        0 <= i < split_spec(s).len() ==> #[trigger] color_of_token(split_spec(s)[i]) is Some
}

/// The colors named by a line, token by token, ASCII capitals lowered;
/// meaningful only where every token names a color.
pub open spec fn parsed_guess(s: Seq<char>) -> Seq<Color> {
    split_spec(s).map_values(|t: Seq<char>| color_of_token(lower_seq(t)).unwrap())
}

/// The nine color names are already lowercase, so lowering a token that
/// names a color as written leaves it unchanged.
pub proof fn lemma_color_token_lower_fixed(t: Seq<char>)
    requires
        color_of_token(t) is Some,
    ensures
        lower_seq(t) == t,
{
    reveal_strlit("red");
    reveal_strlit("brown");
    reveal_strlit("yellow");
    reveal_strlit("green");
    reveal_strlit("black");
    reveal_strlit("white");
    reveal_strlit("orange");
    reveal_strlit("blue");
    reveal_strlit("none");
    assert forall|i: int| 0 <= i < t.len() implies lower_char(t[i]) == t[i] by {}
    assert(lower_seq(t) =~= t);
}

/// The characters of a string slice, in order.
fn chars_of(s: &str) -> (r: Vec<char>)
    ensures
        r@ == s@,
{
    let n = s.unicode_len();
    let mut r: Vec<char> = Vec::new();
    let mut i: usize = 0;
    while i < n
        invariant
            i <= n,
            n == s@.len(),
            r@ == s@.take(i as int),
        decreases n - i,
    {
        r.push(s.get_char(i));
        proof {
            assert(r@ =~= s@.take(i as int + 1));
        }
        i += 1;
    }
    proof {
        assert(s@.take(n as int) =~= s@);
    }
    r
}

/// True exactly when the token spells the given string.
fn token_eq_str(t: &Vec<char>, s: &str) -> (r: bool)
    ensures
        r == (t@ == s@),
{
    let n = s.unicode_len();
    if t.len() != n {
        return false;
    }
    let mut i: usize = 0;
    while i < n
        invariant
            i <= n,
            n == s@.len(),
            t@.len() == n,
            forall|j: int| 0 <= j < i ==> t@[j] == s@[j],
        decreases n - i,
    {
        if t[i] != s.get_char(i) {
            return false;
        }
        i += 1;
    }
    proof {
        assert(t@ =~= s@);
    }
    true
}

/// Lowers each ASCII capital letter of the token.
fn lower_token(t: &Vec<char>) -> (r: Vec<char>)
    ensures
        r@ == lower_seq(t@),
{
    let n = t.len();
    let mut r: Vec<char> = Vec::new();
    let mut i: usize = 0;
    while i < n
        invariant
            i <= n,
            n == t@.len(),
            r@ == lower_seq(t@.take(i as int)),
        decreases n - i,
    {
        let c = t[i];
        let low: char = if c == 'A' {
            'a'
        } else if c == 'B' {
            'b'
        } else if c == 'C' {
            'c'
        } else if c == 'D' {
            'd'
        } else if c == 'E' {
            'e'
        } else if c == 'F' {
            'f'
        } else if c == 'G' {
            'g'
        } else if c == 'H' {
            'h'
        } else if c == 'I' {
            'i'
        } else if c == 'J' {
            'j'
        } else if c == 'K' {
            'k'
        } else if c == 'L' {
            'l'
        } else if c == 'M' {
            'm'
        } else if c == 'N' {
            'n'
        } else if c == 'O' {
            'o'
        } else if c == 'P' {
            'p'
        } else if c == 'Q' {
            'q'
        } else if c == 'R' {
            'r'
        } else if c == 'S' {
            's'
        } else if c == 'T' {
            't'
        } else if c == 'U' {
            'u'
        } else if c == 'V' {
            'v'
        } else if c == 'W' {
            'w'
        } else if c == 'X' {
            'x'
        } else if c == 'Y' {
            'y'
        } else if c == 'Z' {
            'z'
        } else {
            c
        };
        r.push(low);
        proof {
            assert(t@.take(i as int + 1).drop_last() =~= t@.take(i as int));
            assert(r@ =~= lower_seq(t@.take(i as int)).push(lower_char(t@[i as int])));
            assert(lower_seq(t@.take(i as int + 1)) =~= lower_seq(t@.take(i as int)).push(
                lower_char(t@[i as int]),
            ));
        }
        i += 1;
    }
    proof {
        assert(t@.take(n as int) =~= t@);
    }
    r
}

/// The color a token names, after lowering ASCII capitals.
fn token_color(t: &Vec<char>) -> (r: Option<Color>)
    ensures
        r == color_of_token(lower_seq(t@)),
{
    let low = lower_token(t);
    if token_eq_str(&low, "red") {
        Some(Color::Red)
    } else if token_eq_str(&low, "brown") {
        Some(Color::Brown)
    } else if token_eq_str(&low, "yellow") {
        Some(Color::Yellow)
    } else if token_eq_str(&low, "green") {
        Some(Color::Green)
    } else if token_eq_str(&low, "black") {
        Some(Color::Black)
    } else if token_eq_str(&low, "white") {
        Some(Color::White)
    } else if token_eq_str(&low, "orange") {
        Some(Color::Orange)
    } else if token_eq_str(&low, "blue") {
        Some(Color::Blue)
    } else if token_eq_str(&low, "none") {
        Some(Color::Blank)
    } else {
        None
    }
}

/// Maps a color name to its color, ignoring the case of ASCII letters;
/// any other string is a parse error.
pub fn string_to_color(input: &str) -> (r: Result<Color, ParseColorError>)
    ensures
        r matches Ok(c) ==> color_of_token(lower_seq(input@)) == Some(c),
        r is Err ==> color_of_token(lower_seq(input@)) is None,
{
    let t = chars_of(input);
    match token_color(&t) {
        Some(c) => Ok(c),
        None => Err(ParseColorError),
    }
}

/// The token views of a vector of tokens.
pub open spec fn token_views(ts: Seq<Vec<char>>) -> Seq<Seq<char>> {
    ts.map_values(|t: Vec<char>| t@)
}

/// Splits a line at single space characters, keeping empty pieces.
fn split_spaces(input: &str) -> (r: Vec<Vec<char>>)
    ensures
        token_views(r@) == split_spec(input@),
{
    let n = input.unicode_len();
    let mut done: Vec<Vec<char>> = Vec::new();
    let mut cur: Vec<char> = Vec::new();
    let mut i: usize = 0;
    proof {
        assert(input@.take(0) =~= Seq::<char>::empty());
        assert(token_views(done@).push(cur@) =~= split_spec(input@.take(0)));
    }
    while i < n
        invariant
            i <= n,
            n == input@.len(),
            token_views(done@).push(cur@) == split_spec(input@.take(i as int)),
        decreases n - i,
    {
        let ghost pre = split_spec(input@.take(i as int));
        proof {
            assert(input@.take(i as int + 1).drop_last() =~= input@.take(i as int));
        }
        let c = input.get_char(i);
        if c == ' ' {
            done.push(cur);
            cur = Vec::new();
            proof {
                assert(token_views(done@).push(cur@) =~= pre.push(Seq::<char>::empty()));
            }
        } else {
            cur.push(c);
            proof {
                assert(token_views(done@).push(cur@) =~= pre.update(
                    pre.len() - 1,
                    pre.last().push(input@[i as int]),
                ));
            }
        }
        i += 1;
    }
    proof {
        assert(input@.take(n as int) =~= input@);
    }
    done.push(cur);
    proof {
        assert(token_views(done@) =~= split_spec(input@));
    }
    done
}

/// True exactly when the line holds `CODE_LENGTH` space-separated tokens
/// and every token is one of the lowercase color names.
pub fn validate_guess(guess: &String) -> (r: bool)
    ensures
        r == valid_guess(guess@),
{
    let tokens = split_spaces(guess.as_str());
    if tokens.len() != CODE_LENGTH {
        proof {
            assert(split_spec(guess@).len() == tokens@.len());
        }
        return false;
    }
    let n = tokens.len();
    let mut i: usize = 0;
    while i < n
        invariant
            i <= n,
            n == split_spec(guess@).len(),
            token_views(tokens@) == split_spec(guess@),
            n == tokens@.len(),
            forall|j: int| 0 <= j < i ==> #[trigger] color_of_token(split_spec(guess@)[j]) is Some,
        decreases n - i,
    {
        if !is_color_name(&tokens[i]) {
            proof {
                assert(split_spec(guess@)[i as int] == tokens@[i as int]@);
            }
            return false;
        }
        i += 1;
    }
    true
}

/// True exactly when the token, as written, is one of the nine lowercase
/// color names.
fn is_color_name(t: &Vec<char>) -> (r: bool)
    ensures
        r == (color_of_token(t@) is Some),
{
    if token_eq_str(t, "red") {
        true
    } else if token_eq_str(t, "brown") {
        true
    } else if token_eq_str(t, "yellow") {
        true
    } else if token_eq_str(t, "green") {
        true
    } else if token_eq_str(t, "black") {
        true
    } else if token_eq_str(t, "white") {
        true
    } else if token_eq_str(t, "orange") {
        true
    } else if token_eq_str(t, "blue") {
        true
    } else if token_eq_str(t, "none") {
        true
    } else {
        false
    }
}

/// Parses a line into one color per space-separated token, lowering ASCII
/// capitals; fails when some token names no color.
pub fn get_colors(input: &String) -> (r: Result<Vec<Color>, ParseColorError>)
    ensures
        r matches Ok(colors) ==> {
            &&& colors@.len() == split_spec(input@).len()
            &&& forall|i: int|
                0 <= i < colors@.len() ==> #[trigger] color_of_token(
                    lower_seq(split_spec(input@)[i]),
                ) == Some(colors@[i])
            &&& colors@ == parsed_guess(input@)
        },
        r is Err ==> exists|i: int|
            0 <= i < split_spec(input@).len() && #[trigger] color_of_token(
                lower_seq(split_spec(input@)[i]),
            ) is None,
{
    let tokens = split_spaces(input.as_str());
    let n = tokens.len();
    let mut colors: Vec<Color> = Vec::new();
    let mut i: usize = 0;
    while i < n
        invariant
            i <= n,
            n == tokens@.len(),
            token_views(tokens@) == split_spec(input@),
            colors@.len() == i,
            forall|j: int|
                0 <= j < i ==> #[trigger] color_of_token(lower_seq(split_spec(input@)[j]))
                    == Some(colors@[j]),
        decreases n - i,
    {
        match token_color(&tokens[i]) {
            Some(c) => colors.push(c),
            None => {
                proof {
                    assert(split_spec(input@)[i as int] == tokens@[i as int]@);
                    assert(color_of_token(lower_seq(split_spec(input@)[i as int])) is None);
                }
                return Err(ParseColorError);
            },
        }
        i += 1;
    }
    proof {
        assert forall|j: int| 0 <= j < colors@.len() implies colors@[j] == parsed_guess(input@)[j] by {
            assert(color_of_token(lower_seq(split_spec(input@)[j])) == Some(colors@[j]));
        }
        assert(colors@ =~= parsed_guess(input@));
    }
    Ok(colors)
}

} // verus!
