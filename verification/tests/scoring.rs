use mastermind::color::Color;
use mastermind::color::Hint;
use mastermind::scoring::get_hints;
use mastermind::scoring::is_correct;

#[test]
fn score_self_is_all_exact() {
    let code = vec![
        Color::Red,
        Color::Black,
        Color::Blank,
        Color::Red,
        Color::Green,
    ];
    let hints = get_hints(&code, &code);
    assert_eq!(hints, vec![Hint::ExactMatch; 5]);
}

#[test]
fn repeated_color_guard() {
    // The secret supplies two Reds and one Blue; a guess flooded with
    // Blues earns the two positional matches (Red at 0, Blue at 2) and
    // nothing more: the remaining Blues find no unconsumed supply.
    let secret = vec![
        Color::Red,
        Color::Red,
        Color::Blue,
        Color::Green,
        Color::Blank,
    ];
    let guess = vec![
        Color::Red,
        Color::Blue,
        Color::Blue,
        Color::Blue,
        Color::Blue,
    ];
    let hints = get_hints(&guess, &secret);
    assert_eq!(hints, vec![Hint::ExactMatch, Hint::ExactMatch]);
    assert_eq!(hints.len(), 2);
}

#[test]
fn supply_limited_repeated_colors() {
    // One exact match at position 0; the secret's single Blue, not
    // aligned with any guessed Blue, supplies exactly one color match
    // however many Blues the guess repeats.
    let secret = vec![
        Color::Red,
        Color::White,
        Color::White,
        Color::White,
        Color::Blue,
    ];
    let guess = vec![
        Color::Red,
        Color::Blue,
        Color::Blue,
        Color::Blue,
        Color::Orange,
    ];
    let hints = get_hints(&guess, &secret);
    assert_eq!(hints, vec![Hint::ExactMatch, Hint::ColorMatch]);
}

#[test]
fn no_duplicate_counting() {
    // The secret holds exactly one Blue, already claimed by the exact
    // match at position 1, so the other four Blues earn nothing.
    let secret = vec![
        Color::Red,
        Color::Blue,
        Color::Green,
        Color::Black,
        Color::White,
    ];
    let guess = vec![Color::Blue; 5];
    let hints = get_hints(&guess, &secret);
    assert_eq!(hints, vec![Hint::ExactMatch]);
    assert_eq!(hints.len(), 1);
}

#[test]
fn single_blue_elsewhere_is_one_color_match() {
    // The lone Blue of the secret sits at position 0, the guess offers
    // Blue only away from it: exactly one color-only hint.
    let secret = vec![
        Color::Blue,
        Color::Red,
        Color::Green,
        Color::Black,
        Color::White,
    ];
    let guess = vec![
        Color::Orange,
        Color::Blue,
        Color::Blue,
        Color::Blue,
        Color::Blue,
    ];
    let hints = get_hints(&guess, &secret);
    assert_eq!(hints, vec![Hint::ColorMatch]);
}

#[test]
fn swapped_pair_scores_two_color_matches() {
    let secret = vec![
        Color::Red,
        Color::Blue,
        Color::Green,
        Color::Black,
        Color::White,
    ];
    let guess = vec![
        Color::Blue,
        Color::Red,
        Color::Green,
        Color::Black,
        Color::White,
    ];
    let hints = get_hints(&guess, &secret);
    assert_eq!(
        hints,
        vec![
            Hint::ExactMatch,
            Hint::ExactMatch,
            Hint::ExactMatch,
            Hint::ColorMatch,
            Hint::ColorMatch,
        ]
    );
}

#[test]
fn blank_matches_like_any_color() {
    // Two Blanks at different, not exactly paired positions yield a
    // color-only match.
    let secret = vec![
        Color::Blank,
        Color::Red,
        Color::Green,
        Color::Black,
        Color::White,
    ];
    let guess = vec![
        Color::Red,
        Color::Blank,
        Color::Green,
        Color::Black,
        Color::White,
    ];
    let hints = get_hints(&guess, &secret);
    assert_eq!(
        hints,
        vec![
            Hint::ExactMatch,
            Hint::ExactMatch,
            Hint::ExactMatch,
            Hint::ColorMatch,
            Hint::ColorMatch,
        ]
    );
}

#[test]
fn total_hints_never_exceed_length() {
    let secret = vec![
        Color::Red,
        Color::Red,
        Color::Red,
        Color::Blue,
        Color::Blue,
    ];
    let guess = vec![
        Color::Blue,
        Color::Blue,
        Color::Red,
        Color::Red,
        Color::Red,
    ];
    let hints = get_hints(&guess, &secret);
    assert!(hints.len() <= 5);
    assert_eq!(hints.len(), 5);
}

#[test]
fn exact_count_is_symmetric() {
    let a = vec![
        Color::Red,
        Color::Blue,
        Color::Green,
        Color::Green,
        Color::Blank,
    ];
    let b = vec![
        Color::Red,
        Color::Green,
        Color::Green,
        Color::Blue,
        Color::Blank,
    ];
    let exact_ab = get_hints(&a, &b)
        .iter()
        .filter(|h| **h == Hint::ExactMatch)
        .count();
    let exact_ba = get_hints(&b, &a)
        .iter()
        .filter(|h| **h == Hint::ExactMatch)
        .count();
    assert_eq!(exact_ab, 3);
    assert_eq!(exact_ab, exact_ba);
}

#[test]
fn empty_codes_score_no_hints() {
    let secret: Vec<Color> = vec![];
    let guess: Vec<Color> = vec![];
    let hints = get_hints(&guess, &secret);
    assert!(hints.is_empty());
}

#[test]
fn hints_are_sorted_exact_before_color() {
    let secret = vec![
        Color::Red,
        Color::Blue,
        Color::Green,
        Color::Black,
        Color::White,
    ];
    let guess = vec![
        Color::Blue,
        Color::Blue,
        Color::Green,
        Color::White,
        Color::Black,
    ];
    let hints = get_hints(&guess, &secret);
    let first_color = hints.iter().position(|h| *h == Hint::ColorMatch);
    if let Some(k) = first_color {
        assert!(hints[k..].iter().all(|h| *h == Hint::ColorMatch));
    }
    assert_eq!(
        hints,
        vec![
            Hint::ExactMatch,
            Hint::ExactMatch,
            Hint::ColorMatch,
            Hint::ColorMatch,
        ]
    );
}

#[test]
fn is_correct_on_equal_codes() {
    let a = vec![Color::Red, Color::Blue, Color::Green, Color::Black, Color::White];
    let b = a.clone();
    assert!(is_correct(&a, &b));
}

#[test]
fn is_correct_on_different_codes() {
    let a = vec![Color::Red, Color::Blue, Color::Green, Color::Black, Color::White];
    let mut b = a.clone();
    b[4] = Color::Blank;
    assert!(!is_correct(&a, &b));
}

#[test]
fn is_correct_on_different_lengths() {
    let a = vec![Color::Red, Color::Blue];
    let b = vec![Color::Red, Color::Blue, Color::Green];
    assert!(!is_correct(&a, &b));
}
