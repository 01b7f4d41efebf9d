use mastermind::color::Color;
use mastermind::color::Hint;
use mastermind::display::pluralize;
use mastermind::display::print_guess;
use mastermind::display::print_hints;

#[test]
fn blank_renders_as_hollow_circle() {
    assert_eq!(print_guess(&vec![Color::Blank]), "\u{25ef}");
}

#[test]
fn colors_render_as_escaped_circles() {
    assert_eq!(
        print_guess(&vec![Color::Red]),
        "\u{1b}[31m\u{2b24}\u{1b}[0m"
    );
    assert_eq!(
        print_guess(&vec![Color::Green, Color::Blank]),
        "\u{1b}[32m\u{2b24}\u{1b}[0m\u{25ef}"
    );
}

#[test]
fn empty_guess_renders_empty() {
    assert_eq!(print_guess(&Vec::new()), "");
}

#[test]
fn hints_render_as_plus_and_minus() {
    assert_eq!(
        print_hints(&vec![Hint::ExactMatch, Hint::ExactMatch, Hint::ColorMatch]),
        "++-"
    );
    assert_eq!(print_hints(&Vec::new()), "");
}

#[test]
fn pluralize_only_one_is_singular() {
    assert_eq!(pluralize(&1), "");
    assert_eq!(pluralize(&0), "s");
    assert_eq!(pluralize(&2), "s");
    assert_eq!(pluralize(&12), "s");
}
