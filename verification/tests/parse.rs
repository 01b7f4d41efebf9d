use mastermind::color::Color;
use mastermind::parse::get_colors;
use mastermind::parse::string_to_color;
use mastermind::parse::validate_guess;

#[test]
fn string_to_color_maps_every_name() {
    assert_eq!(string_to_color("red"), Ok(Color::Red));
    assert_eq!(string_to_color("brown"), Ok(Color::Brown));
    assert_eq!(string_to_color("yellow"), Ok(Color::Yellow));
    assert_eq!(string_to_color("green"), Ok(Color::Green));
    assert_eq!(string_to_color("black"), Ok(Color::Black));
    assert_eq!(string_to_color("white"), Ok(Color::White));
    assert_eq!(string_to_color("orange"), Ok(Color::Orange));
    assert_eq!(string_to_color("blue"), Ok(Color::Blue));
    assert_eq!(string_to_color("none"), Ok(Color::Blank));
}

#[test]
fn string_to_color_ignores_ascii_case() {
    assert_eq!(string_to_color("RED"), Ok(Color::Red));
    assert_eq!(string_to_color("Brown"), Ok(Color::Brown));
    assert_eq!(string_to_color("nOnE"), Ok(Color::Blank));
}

#[test]
fn string_to_color_rejects_unknown_tokens() {
    assert!(string_to_color("purple").is_err());
    assert!(string_to_color("").is_err());
    assert!(string_to_color("red ").is_err());
    assert!(string_to_color("redd").is_err());
}

#[test]
fn validate_guess_accepts_five_names() {
    let line = String::from("red blue green black white");
    assert!(validate_guess(&line));
    let with_none = String::from("none none none none none");
    assert!(validate_guess(&with_none));
}

#[test]
fn validate_guess_rejects_wrong_counts() {
    assert!(!validate_guess(&String::from("red blue")));
    assert!(!validate_guess(&String::from(
        "red blue green black white orange"
    )));
    assert!(!validate_guess(&String::from("")));
}

#[test]
fn validate_guess_rejects_unknown_tokens() {
    assert!(!validate_guess(&String::from("red blue green black wite")));
}

#[test]
fn validate_guess_rejects_double_spaces() {
    // A run of two spaces yields an empty token, which names no color.
    assert!(!validate_guess(&String::from("red  blue green black white")));
}

#[test]
fn validate_guess_is_case_sensitive() {
    // Validation checks tokens as written; the caller lowers the line first.
    assert!(!validate_guess(&String::from("Red blue green black white")));
}

#[test]
fn get_colors_parses_a_line() {
    let line = String::from("red blue none black white");
    assert_eq!(
        get_colors(&line),
        Ok(vec![
            Color::Red,
            Color::Blue,
            Color::Blank,
            Color::Black,
            Color::White,
        ])
    );
}

#[test]
fn get_colors_ignores_ascii_case() {
    let line = String::from("RED Blue GREEN black WhItE");
    assert_eq!(
        get_colors(&line),
        Ok(vec![
            Color::Red,
            Color::Blue,
            Color::Green,
            Color::Black,
            Color::White,
        ])
    );
}

#[test]
fn get_colors_fails_on_unknown_token() {
    assert!(get_colors(&String::from("red blue green black wite")).is_err());
    assert!(get_colors(&String::from("red  blue")).is_err());
}
