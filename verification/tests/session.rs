use mastermind::color::Color;
use mastermind::color::Hint;
use mastermind::session::Session;
use mastermind::session::SessionError;
use mastermind::session::SessionState;
use mastermind::session::SubmissionResult;
use mastermind::session::get_code;

fn secret() -> Vec<Color> {
    vec![
        Color::Red,
        Color::Blue,
        Color::Green,
        Color::Black,
        Color::White,
    ]
}

#[test]
fn get_code_draws_code_length_colors() {
    assert_eq!(get_code().len(), 5);
}

#[test]
fn new_session_awaits_guesses() {
    let s = Session::new(12);
    assert_eq!(s.secret.len(), 5);
    assert_eq!(s.attempts, 0);
    assert_eq!(s.state, SessionState::AwaitingGuess);
    assert!(s.history.is_empty());
}

#[test]
fn winning_guess_reports_attempt_count() {
    let mut s = Session::new_with_secret(secret(), 12);
    let wrong = String::from("none none none none none");
    match s.submit(&wrong) {
        Ok(SubmissionResult::InProgress { hints }) => assert!(hints.is_empty()),
        _ => panic!("expected an in-progress result"),
    }
    let right = String::from("red blue green black white");
    match s.submit(&right) {
        Ok(SubmissionResult::Victory { attempts }) => assert_eq!(attempts, 2),
        _ => panic!("expected a victory"),
    }
    assert_eq!(s.state, SessionState::Won);
    assert_eq!(s.attempts, 2);
    assert_eq!(s.history.len(), 2);
}

#[test]
fn exhausting_the_budget_ends_the_game() {
    let mut s = Session::new_with_secret(secret(), 2);
    let wrong = String::from("none none none none none");
    assert!(matches!(
        s.submit(&wrong),
        Ok(SubmissionResult::InProgress { .. })
    ));
    assert!(matches!(s.submit(&wrong), Ok(SubmissionResult::GameOver)));
    assert_eq!(s.state, SessionState::Exhausted);
    assert_eq!(s.attempts, 2);
}

#[test]
fn terminated_session_rejects_submissions() {
    let mut s = Session::new_with_secret(secret(), 12);
    let right = String::from("red blue green black white");
    assert!(matches!(
        s.submit(&right),
        Ok(SubmissionResult::Victory { .. })
    ));
    assert!(matches!(
        s.submit(&right),
        Err(SessionError::SessionTerminated)
    ));
    assert_eq!(s.attempts, 1);
}

#[test]
fn invalid_guess_costs_no_attempt() {
    let mut s = Session::new_with_secret(secret(), 12);
    let bad = String::from("red blue green black magenta");
    assert!(matches!(s.submit(&bad), Ok(SubmissionResult::InvalidGuess)));
    assert_eq!(s.attempts, 0);
    assert!(s.history.is_empty());
    assert_eq!(s.state, SessionState::AwaitingGuess);
    let right = String::from("red blue green black white");
    match s.submit(&right) {
        Ok(SubmissionResult::Victory { attempts }) => assert_eq!(attempts, 1),
        _ => panic!("expected a victory on the first counted attempt"),
    }
}

#[test]
fn wrong_token_count_is_invalid() {
    let mut s = Session::new_with_secret(secret(), 12);
    let short = String::from("red blue");
    assert!(matches!(
        s.submit(&short),
        Ok(SubmissionResult::InvalidGuess)
    ));
    assert_eq!(s.attempts, 0);
}

#[test]
fn hints_are_recorded_with_each_guess() {
    let mut s = Session::new_with_secret(secret(), 12);
    let near = String::from("blue red green black white");
    match s.submit(&near) {
        Ok(SubmissionResult::InProgress { hints }) => {
            assert_eq!(
                hints,
                vec![
                    Hint::ExactMatch,
                    Hint::ExactMatch,
                    Hint::ExactMatch,
                    Hint::ColorMatch,
                    Hint::ColorMatch,
                ]
            );
            assert_eq!(s.history.len(), 1);
            assert_eq!(s.history[0].hints, hints);
        },
        _ => panic!("expected an in-progress result"),
    }
}

#[test]
fn session_accepts_mixed_case_after_lowering() {
    // The session validates tokens as written; the driving loop lowers
    // the raw line first, as the terminal front end does.
    let mut s = Session::new_with_secret(secret(), 12);
    let raw = String::from("Red Blue Green Black White");
    let lowered = raw.to_lowercase();
    assert!(matches!(
        s.submit(&lowered),
        Ok(SubmissionResult::Victory { .. })
    ));
}
