//! The scoring engine: compares a guess against the secret code and
//! produces the canonical hint sequence, with exact matches computed first
//! and each secret peg supplying at most one hint.

use vstd::prelude::*;

use crate::color::Color;
use crate::color::Hint;

verus! {

/// How many positions the two codes agree on.
pub open spec fn exact_count(g: Seq<Color>, s: Seq<Color>) -> nat
    recommends
        g.len() == s.len(),
    decreases g.len(),
{
    if g.len() == 0 || s.len() == 0 {
        0
    } else {
        exact_count(g.drop_last(), s.drop_last()) + (if g.last() == s.last() {
            1nat
        } else {
            0nat
        })
    }
}

/// How many pegs of `s` hold the color `c`.
pub open spec fn count_color(s: Seq<Color>, c: Color) -> nat
    decreases s.len(),
{
    if s.len() == 0 {
        0
    } else {
        count_color(s.drop_last(), c) + (if s.last() == c {
            1nat
        } else {
            0nat
        })
    }
}

/// The colors of `a` at the positions where `a` and `b` disagree, kept in
/// order: the pegs of `a` that are left once the exact matches are removed.
pub open spec fn residual(a: Seq<Color>, b: Seq<Color>) -> Seq<Color>
    recommends
        a.len() == b.len(),
    decreases a.len(),
{
    if a.len() == 0 || b.len() == 0 {
        Seq::empty()
    } else {
        let rest = residual(a.drop_last(), b.drop_last());
        if a.last() == b.last() {
            rest
        } else {
            rest.push(a.last())
        }
    }
}

pub open spec fn min_nat(a: nat, b: nat) -> nat {
    if a <= b {
        a
    } else {
        b
    }
}

/// Supply-limited number of color-only pairings available for color `c`
/// between the two leftover sides.
pub open spec fn pair_count(a: Seq<Color>, b: Seq<Color>, c: Color) -> nat {
    min_nat(count_color(a, c), count_color(b, c))
}

/// Sum of the supply-limited pairings over all nine colors.
pub open spec fn match_sum(a: Seq<Color>, b: Seq<Color>) -> nat {
    pair_count(a, b, Color::Red) + pair_count(a, b, Color::Brown) + pair_count(a, b, Color::Yellow)
        + pair_count(a, b, Color::Green) + pair_count(a, b, Color::Black) + pair_count(
        a,
        b,
        Color::White,
    ) + pair_count(a, b, Color::Orange) + pair_count(a, b, Color::Blue) + pair_count(
        a,
        b,
        Color::Blank,
    )
}

/// How many color-only hints the guess `g` earns against the secret `s`:
/// for each color, the pairings are limited by the pegs left on either
/// side after the exact matches are removed.
pub open spec fn color_match_count(g: Seq<Color>, s: Seq<Color>) -> nat {
    match_sum(residual(g, s), residual(s, g))
}

/// The canonical hint sequence for `g` against `s`: all exact matches
/// first, then all color-only matches.
pub open spec fn hint_seq(g: Seq<Color>, s: Seq<Color>) -> Seq<Hint> {
    Seq::new(exact_count(g, s), |i: int| Hint::ExactMatch) + Seq::new(
        color_match_count(g, s),
        |i: int| Hint::ColorMatch,
    )
}

/// Among the positions where `s` and `g` disagree, how many pegs of color
/// `c` the marker sequence `u` records as consumed.
spec fn used_count(s: Seq<Color>, g: Seq<Color>, u: Seq<bool>, c: Color) -> nat
    recommends
        s.len() == g.len(),
        s.len() == u.len(),
    decreases s.len(),
{
    if s.len() == 0 || g.len() == 0 || u.len() == 0 {
        0
    } else {
        used_count(s.drop_last(), g.drop_last(), u.drop_last(), c) + (if s.last() != g.last()
            && s.last() == c && u.last() {
            1nat
        } else {
            0nat
        })
    }
}

/// Consumed disagreeing pegs, summed over all nine colors.
spec fn used_total(s: Seq<Color>, g: Seq<Color>, u: Seq<bool>) -> nat {
    used_count(s, g, u, Color::Red) + used_count(s, g, u, Color::Brown) + used_count(
        s,
        g,
        u,
        Color::Yellow,
    ) + used_count(s, g, u, Color::Green) + used_count(s, g, u, Color::Black) + used_count(
        s,
        g,
        u,
        Color::White,
    ) + used_count(s, g, u, Color::Orange) + used_count(s, g, u, Color::Blue) + used_count(
        s,
        g,
        u,
        Color::Blank,
    )
}

proof fn lemma_count_color_push(a: Seq<Color>, x: Color, c: Color)
    ensures
        count_color(a.push(x), c) == count_color(a, c) + (if x == c {
            1nat
        } else {
            0nat
        }),
{
    assert(a.push(x).drop_last() =~= a);
    assert(a.push(x).last() == x);
}

proof fn lemma_exact_count_take_step(g: Seq<Color>, s: Seq<Color>, i: int)
    requires
        g.len() == s.len(),
        0 <= i < g.len(),
    ensures
        exact_count(g.take(i + 1), s.take(i + 1)) == exact_count(g.take(i), s.take(i)) + (if g[i]
            == s[i] {
            1nat
        } else {
            0nat
        }),
{
    assert(g.take(i + 1).drop_last() =~= g.take(i));
    assert(s.take(i + 1).drop_last() =~= s.take(i));
    assert(g.take(i + 1).last() == g[i]);
    assert(s.take(i + 1).last() == s[i]);
}

proof fn lemma_residual_take_step(g: Seq<Color>, s: Seq<Color>, i: int)
    requires
        g.len() == s.len(),
        0 <= i < g.len(),
    ensures
        g[i] == s[i] ==> residual(g.take(i + 1), s.take(i + 1)) == residual(g.take(i), s.take(i)),
        g[i] != s[i] ==> residual(g.take(i + 1), s.take(i + 1)) == residual(
            g.take(i),
            s.take(i),
        ).push(g[i]),
{
    assert(g.take(i + 1).drop_last() =~= g.take(i));
    assert(s.take(i + 1).drop_last() =~= s.take(i));
    assert(g.take(i + 1).last() == g[i]);
    assert(s.take(i + 1).last() == s[i]);
}

/// A marker sequence that marks only agreeing positions consumes no
/// disagreeing peg.
proof fn lemma_used_count_zero(s: Seq<Color>, g: Seq<Color>, u: Seq<bool>, c: Color)
    requires
        s.len() == g.len(),
        s.len() == u.len(),
        forall|j: int| 0 <= j < u.len() && u[j] ==> s[j] == g[j],
    ensures
        used_count(s, g, u, c) == 0,
    decreases s.len(),
{
    if s.len() > 0 {
        lemma_used_count_zero(s.drop_last(), g.drop_last(), u.drop_last(), c);
    }
}

/// Marking one more disagreeing peg raises the consumed count of its own
/// color by one and leaves every other color's count unchanged.
proof fn lemma_used_count_update(s: Seq<Color>, g: Seq<Color>, u: Seq<bool>, j: int, c: Color)
    requires
        s.len() == g.len(),
        s.len() == u.len(),
        0 <= j < u.len(),
        s[j] != g[j],
        !u[j],
    ensures
        used_count(s, g, u.update(j, true), c) == used_count(s, g, u, c) + (if s[j] == c {
            1nat
        } else {
            0nat
        }),
    decreases s.len(),
{
    let u2 = u.update(j, true);
    if j == s.len() - 1 {
        assert(u2.drop_last() =~= u.drop_last());
        assert(u2.last());
    } else {
        assert(u2.drop_last() =~= u.drop_last().update(j, true));
        assert(u2.last() == u.last());
        lemma_used_count_update(s.drop_last(), g.drop_last(), u.drop_last(), j, c);
    }
}

/// Consumed pegs of a color never outnumber the disagreeing pegs of that
/// color.
proof fn lemma_used_count_le(s: Seq<Color>, g: Seq<Color>, u: Seq<bool>, c: Color)
    requires
        s.len() == g.len(),
        s.len() == u.len(),
    ensures
        used_count(s, g, u, c) <= count_color(residual(s, g), c),
    decreases s.len(),
{
    if s.len() > 0 {
        lemma_used_count_le(s.drop_last(), g.drop_last(), u.drop_last(), c);
        if s.last() != g.last() {
            lemma_count_color_push(residual(s.drop_last(), g.drop_last()), s.last(), c);
        }
    }
}

/// Once every disagreeing peg of color `c` is marked, the consumed count
/// of `c` equals its full supply.
proof fn lemma_used_count_full(s: Seq<Color>, g: Seq<Color>, u: Seq<bool>, c: Color)
    requires
        s.len() == g.len(),
        s.len() == u.len(),
        forall|j: int| 0 <= j < s.len() && s[j] == c && s[j] != g[j] ==> u[j],
    ensures
        used_count(s, g, u, c) == count_color(residual(s, g), c),
    decreases s.len(),
{
    if s.len() > 0 {
        lemma_used_count_full(s.drop_last(), g.drop_last(), u.drop_last(), c);
        if s.last() != g.last() {
            lemma_count_color_push(residual(s.drop_last(), g.drop_last()), s.last(), c);
        }
    }
}

/// An unmarked disagreeing peg of color `c` witnesses spare supply of `c`.
proof fn lemma_used_count_strict(s: Seq<Color>, g: Seq<Color>, u: Seq<bool>, j: int, c: Color)
    requires
        s.len() == g.len(),
        s.len() == u.len(),
        0 <= j < s.len(),
        s[j] == c,
        s[j] != g[j],
        !u[j],
    ensures
        used_count(s, g, u, c) < count_color(residual(s, g), c),
{
    lemma_used_count_update(s, g, u, j, c);
    lemma_used_count_le(s, g, u.update(j, true), c);
}

/// Find the first not-yet-consumed position of `code` that holds `c`.
fn find_unused(code: &Vec<Color>, used: &Vec<bool>, c: Color) -> (r: Option<usize>)
    requires
        code@.len() == used@.len(),
    ensures
        match r {
            Some(j) => j < code@.len() && code@[j as int] == c && !used@[j as int],
            None => forall|j: int| 0 <= j < code@.len() ==> !(code@[j] == c && !used@[j]),
        },
{
    let n = code.len();
    let mut j: usize = 0;
    while j < n
        invariant
            j <= n,
            n == code@.len(),
            n == used@.len(),
            forall|k: int| 0 <= k < j ==> !(code@[k] == c && !used@[k]),
        decreases n - j,
    {
        if code[j] == c && !used[j] {
            return Some(j);
        }
        j += 1;
    }
    None
}

/// Compute the hints that the guess earns against the code: first one
/// `ExactMatch` per agreeing position, then one `ColorMatch` per remaining
/// guess peg whose color is still available among the unconsumed pegs of
/// the code, each code peg consumed at most once.
pub fn get_hints(guess: &Vec<Color>, code: &Vec<Color>) -> (hints: Vec<Hint>)
    requires
        guess@.len() == code@.len(),
    ensures
        hints@ == hint_seq(guess@, code@),
{
    let n = guess.len();
    let g = Ghost(guess@);
    let s = Ghost(code@);
    let mut hints: Vec<Hint> = Vec::new();
    let mut used: Vec<bool> = Vec::new();
    let mut i: usize = 0;
    // First pass: exact matches, consuming the agreeing code positions.
    while i < n
        invariant
            i <= n,
            n == g@.len(),
            n == s@.len(),
            g@ == guess@,
            s@ == code@,
            used@.len() == i,
            forall|j: int| 0 <= j < i ==> used@[j] == (g@[j] == s@[j]),
            hints@.len() == exact_count(g@.take(i as int), s@.take(i as int)),
            forall|k: int| 0 <= k < hints@.len() ==> hints@[k] == Hint::ExactMatch,
        decreases n - i,
    {
        proof {
            lemma_exact_count_take_step(g@, s@, i as int);
        }
        if guess[i] == code[i] {
            hints.push(Hint::ExactMatch);
            used.push(true);
        } else {
            used.push(false);
        }
        i += 1;
    }
    let ghost e = exact_count(g@, s@);
    proof {
        assert(g@.take(n as int) =~= g@);
        assert(s@.take(n as int) =~= s@);
        assert(g@.take(0) =~= Seq::<Color>::empty());
        assert(s@.take(0) =~= Seq::<Color>::empty());
        assert(residual(g@.take(0), s@.take(0)) == Seq::<Color>::empty());
        assert forall|c: Color| used_count(s@, g@, used@, c) == pair_count(
            residual(g@.take(0), s@.take(0)),
            residual(s@, g@),
            c,
        ) by {
            lemma_used_count_zero(s@, g@, used@, c);
        }
    }
    // Second pass: color-only matches against the unconsumed code pegs.
    i = 0;
    while i < n
        invariant
            i <= n,
            n == g@.len(),
            n == s@.len(),
            g@ == guess@,
            s@ == code@,
            e == exact_count(g@, s@),
            used@.len() == n,
            forall|j: int| 0 <= j < n && g@[j] == s@[j] ==> used@[j],
            forall|c: Color|
                #[trigger] used_count(s@, g@, used@, c) == pair_count(
                    residual(g@.take(i as int), s@.take(i as int)),
                    residual(s@, g@),
                    c,
                ),
            hints@.len() == e + used_total(s@, g@, used@),
            forall|k: int| 0 <= k < e ==> hints@[k] == Hint::ExactMatch,
            forall|k: int| e <= k < hints@.len() ==> hints@[k] == Hint::ColorMatch,
        decreases n - i,
    {
        proof {
            lemma_residual_take_step(g@, s@, i as int);
        }
        let ghost a_pre = residual(g@.take(i as int), s@.take(i as int));
        let ghost a_post = residual(g@.take(i as int + 1), s@.take(i as int + 1));
        let ghost b = residual(s@, g@);
        if guess[i] != code[i] {
            let c = guess[i];
            proof {
                assert forall|c2: Color| #[trigger] count_color(a_post, c2) == count_color(
                    a_pre,
                    c2,
                ) + (if c == c2 {
                    1nat
                } else {
                    0nat
                }) by {
                    lemma_count_color_push(a_pre, g@[i as int], c2);
                }
            }
            match find_unused(code, &used, c) {
                Some(j) => {
                    let ghost u_pre = used@;
                    proof {
                        lemma_used_count_strict(s@, g@, u_pre, j as int, c);
                        assert forall|c2: Color|
                            #[trigger] used_count(s@, g@, u_pre.update(j as int, true), c2)
                                == used_count(s@, g@, u_pre, c2) + (if c == c2 {
                                1nat
                            } else {
                                0nat
                            }) by {
                            lemma_used_count_update(s@, g@, u_pre, j as int, c2);
                        }
                    }
                    used[j] = true;
                    hints.push(Hint::ColorMatch);
                    proof {
                        assert(used@ =~= u_pre.update(j as int, true));
                    }
                },
                None => {
                    proof {
                        lemma_used_count_full(s@, g@, used@, c);
                    }
                },
            }
        }
        i += 1;
    }
    proof {
        assert(g@.take(n as int) =~= g@);
        assert(s@.take(n as int) =~= s@);
        assert(hints@.len() == e + color_match_count(g@, s@));
        assert(hints@ =~= hint_seq(g@, s@));
    }
    hints
}

proof fn lemma_exact_count_le(g: Seq<Color>, s: Seq<Color>)
    ensures
        exact_count(g, s) <= g.len(),
        exact_count(g, s) <= s.len(),
    decreases g.len(),
{
    if g.len() > 0 && s.len() > 0 {
        lemma_exact_count_le(g.drop_last(), s.drop_last());
    }
}

/// The pegs left over after the exact matches are exactly the positions
/// not counted as exact matches.
proof fn lemma_residual_len(a: Seq<Color>, b: Seq<Color>)
    requires
        a.len() == b.len(),
    ensures
        residual(a, b).len() + exact_count(a, b) == a.len(),
    decreases a.len(),
{
    if a.len() > 0 {
        lemma_residual_len(a.drop_last(), b.drop_last());
    }
}

/// Every peg holds exactly one of the nine colors, so the per-color
/// counts sum to the length.
proof fn lemma_count_total(b: Seq<Color>)
    ensures
        count_color(b, Color::Red) + count_color(b, Color::Brown) + count_color(b, Color::Yellow)
            + count_color(b, Color::Green) + count_color(b, Color::Black) + count_color(
            b,
            Color::White,
        ) + count_color(b, Color::Orange) + count_color(b, Color::Blue) + count_color(
            b,
            Color::Blank,
        ) == b.len(),
    decreases b.len(),
{
    if b.len() > 0 {
        lemma_count_total(b.drop_last());
    }
}

proof fn lemma_match_sum_le(a: Seq<Color>, b: Seq<Color>)
    ensures
        match_sum(a, b) <= b.len(),
{
    lemma_count_total(b);
}

/// A guess never earns more hints than the code has pegs: the exact and
/// color-only hints together number at most the common length.
pub proof fn lemma_score_size(g: Seq<Color>, s: Seq<Color>)
    requires
        g.len() == s.len(),
    ensures
        hint_seq(g, s).len() == exact_count(g, s) + color_match_count(g, s),
        exact_count(g, s) + color_match_count(g, s) <= g.len(),
{
    lemma_match_sum_le(residual(g, s), residual(s, g));
    lemma_residual_len(s, g);
    lemma_exact_count_symmetric(g, s);
}

/// The number of exact matches does not depend on which code plays the
/// guess and which the secret: it counts positional agreements only.
pub proof fn lemma_exact_count_symmetric(g: Seq<Color>, s: Seq<Color>)
    ensures
        exact_count(g, s) == exact_count(s, g),
    decreases g.len(),
{
    if g.len() > 0 && s.len() > 0 {
        lemma_exact_count_symmetric(g.drop_last(), s.drop_last());
    }
}

proof fn lemma_residual_self(s: Seq<Color>)
    ensures
        residual(s, s) == Seq::<Color>::empty(),
    decreases s.len(),
{
    if s.len() > 0 {
        lemma_residual_self(s.drop_last());
    }
    assert(residual(s, s) =~= Seq::<Color>::empty());
}

/// A code scored against itself earns one exact match per peg and no
/// color-only match.
pub proof fn lemma_score_self(s: Seq<Color>)
    ensures
        exact_count(s, s) == s.len(),
        color_match_count(s, s) == 0,
        hint_seq(s, s) == Seq::new(s.len(), |i: int| Hint::ExactMatch),
    decreases s.len(),
{
    if s.len() > 0 {
        lemma_score_self(s.drop_last());
    }
    lemma_residual_self(s);
    assert(hint_seq(s, s) =~= Seq::new(s.len(), |i: int| Hint::ExactMatch));
}

/// A guess earns an exact match at every position exactly when it equals
/// the secret: the win condition.
pub proof fn lemma_exact_count_full_iff_eq(g: Seq<Color>, s: Seq<Color>)
    requires
        g.len() == s.len(),
    ensures
        exact_count(g, s) == g.len() <==> g == s,
    decreases g.len(),
{
    if g.len() == 0 {
        assert(g =~= s);
    } else {
        lemma_exact_count_full_iff_eq(g.drop_last(), s.drop_last());
        lemma_exact_count_le(g.drop_last(), s.drop_last());
        if exact_count(g, s) == g.len() {
            assert(g.drop_last() == s.drop_last() && g.last() == s.last());
            assert forall|i: int| 0 <= i < g.len() implies g[i] == s[i] by {
                if i < g.len() - 1 {
                    assert(g[i] == g.drop_last()[i]);
                    assert(s[i] == s.drop_last()[i]);
                }
            }
            assert(g =~= s);
        }
        if g == s {
            assert(g.drop_last() =~= s.drop_last());
        }
    }
}

/// True exactly when the guess and the code are the same sequence.
pub fn is_correct(guess: &Vec<Color>, code: &Vec<Color>) -> (r: bool)
    ensures
        r == (guess@ == code@),
{
    let n = guess.len();
    if n != code.len() {
        return false;
    }
    let mut i: usize = 0;
    while i < n
        invariant
            i <= n,
            n == guess@.len(),
            n == code@.len(),
            forall|j: int| 0 <= j < i ==> guess@[j] == code@[j],
        decreases n - i,
    {
        if guess[i] != code[i] {
            return false;
        }
        i += 1;
    }
    proof {
        assert(guess@ =~= code@);
    }
    true
}

} // verus!
