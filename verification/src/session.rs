//! The game session: a small state machine that owns the secret code, the
//! attempt counter and the guess history, validates each submitted line,
//! scores it, and decides the outcome.

use vstd::prelude::*;

use rand::seq::IndexedRandom;

use crate::color::CODE_LENGTH;
use crate::color::Color;
use crate::color::Hint;
use crate::parse::color_of_token;
use crate::parse::get_colors;
use crate::parse::lemma_color_token_lower_fixed;
use crate::parse::lower_seq;
use crate::parse::parsed_guess;
use crate::parse::split_spec;
use crate::parse::valid_guess;
use crate::parse::validate_guess;
use crate::scoring::get_hints;
use crate::scoring::hint_seq;
use crate::scoring::is_correct;

verus! {

/// One scored guess, kept for replay: the guess and the hints it earned.
#[derive(Debug)]
pub struct GuessRecord {
    pub guess: Vec<Color>,
    pub hints: Vec<Hint>,
}

/// Where a session stands: still accepting guesses, won, or out of
/// attempts.
#[derive(Debug, PartialEq, Eq, Structural, Copy, Clone)]
pub enum SessionState {
    AwaitingGuess,
    Won,
    Exhausted,
}

/// Submitting a guess to a finished session is a caller error.
#[derive(Debug, PartialEq, Eq, Structural, Copy, Clone)]
pub enum SessionError {
    SessionTerminated,
}

/// What one submission produced.
#[derive(Debug)]
pub enum SubmissionResult {
    /// The line did not hold exactly `CODE_LENGTH` color names; no attempt
    /// was consumed.
    InvalidGuess,
    /// The guess equals the secret; carries the number of attempts used.
    Victory { attempts: usize },
    /// The attempt budget is spent without a win.
    GameOver,
    /// A scored guess with attempts to spare; carries the hints earned.
    InProgress { hints: Vec<Hint> },
}

/// A record is sound for a secret: the guess has code length and the
/// hints are exactly its score.
pub open spec fn wf_record(rec: GuessRecord, secret: Seq<Color>) -> bool {
    &&& rec.guess@.len() == CODE_LENGTH
    &&& rec.hints@ == hint_seq(rec.guess@, secret)
}

/// A running or finished game: the secret, the attempt budget, the
/// attempts used, the scored history, and the state.
pub struct Session {
    pub secret: Vec<Color>,
    pub max_attempts: usize,
    pub attempts: usize,
    pub history: Vec<GuessRecord>,
    pub state: SessionState,
}

impl Session {
    /// The session invariant: the secret has code length, attempts stay
    /// within the budget, the history holds one sound record per attempt,
    /// a session still awaiting guesses has budget left, a won session
    /// ends on a guess equal to the secret, and an exhausted one on a
    /// spent budget.
    pub open spec fn wf(self) -> bool {
        &&& self.secret@.len() == CODE_LENGTH
        &&& self.max_attempts >= 1
        &&& self.attempts <= self.max_attempts
        &&& self.history@.len() == self.attempts
        &&& forall|i: int|
            0 <= i < self.history@.len() ==> #[trigger] wf_record(self.history@[i], self.secret@)
        &&& (self.state is AwaitingGuess ==> self.attempts < self.max_attempts)
        &&& (self.state is Won ==> self.attempts >= 1 && self.history@.last().guess@
            == self.secret@)
        &&& (self.state is Exhausted ==> self.attempts == self.max_attempts)
    }

    /// Start a session around a known secret.
    pub fn new_with_secret(secret: Vec<Color>, max_attempts: usize) -> (s: Session)
        requires
            secret@.len() == CODE_LENGTH,
            max_attempts >= 1,
        ensures
            s.wf(),
            s.secret == secret,
            s.max_attempts == max_attempts,
            s.attempts == 0,
            s.history@.len() == 0,
            s.state is AwaitingGuess,
    {
        Session {
            secret,
            max_attempts,
            attempts: 0,
            history: Vec::new(),
            state: SessionState::AwaitingGuess,
        }
    }

    /// Start a session with a freshly drawn secret.
    pub fn new(max_attempts: usize) -> (s: Session)
        requires
            max_attempts >= 1,
        ensures
            s.wf(),
            s.max_attempts == max_attempts,
            s.attempts == 0,
            s.history@.len() == 0,
            s.state is AwaitingGuess,
    {
        let secret = get_code();
        Session::new_with_secret(secret, max_attempts)
    }

    /// Submit one line. A finished session rejects the call; an invalid
    /// line costs nothing; a valid guess consumes one attempt, is scored
    /// and recorded, and decides whether the session is won, exhausted,
    /// or still in progress.
    pub fn submit(&mut self, raw_guess: &String) -> (r: Result<SubmissionResult, SessionError>)
        requires
            old(self).wf(),
        ensures
            final(self).wf(),
            final(self).secret == old(self).secret,
            final(self).max_attempts == old(self).max_attempts,
            !(old(self).state is AwaitingGuess) ==> r == Err::<SubmissionResult, SessionError>(
                SessionError::SessionTerminated,
            ) && *final(self) == *old(self),
            old(self).state is AwaitingGuess && !valid_guess(raw_guess@) ==> r == Ok::<
                SubmissionResult,
                SessionError,
            >(SubmissionResult::InvalidGuess) && *final(self) == *old(self),
            old(self).state is AwaitingGuess && valid_guess(raw_guess@) ==> submit_valid_post(
                *old(self),
                *final(self),
                parsed_guess(raw_guess@),
                r,
            ),
    {
        match self.state {
            SessionState::Won => {
                return Err(SessionError::SessionTerminated);
            },
            SessionState::Exhausted => {
                return Err(SessionError::SessionTerminated);
            },
            SessionState::AwaitingGuess => {},
        }
        if !validate_guess(raw_guess) {
            return Ok(SubmissionResult::InvalidGuess);
        }
        let guess = match get_colors(raw_guess) {
            Ok(colors) => colors,
            Err(_) => {
                proof {
                    let toks = split_spec(raw_guess@);
                    let i = choose|i: int|
                        0 <= i < toks.len() && color_of_token(lower_seq(toks[i])) is None;
                    lemma_color_token_lower_fixed(toks[i]);
                    assert(false);
                }
                return Err(SessionError::SessionTerminated);
            },
        };
        let won = is_correct(&guess, &self.secret);
        self.attempts = self.attempts + 1;
        let ghost pre_history = self.history@;
        if won {
            let hints = get_hints(&guess, &self.secret);
            let attempts = self.attempts;
            self.history.push(GuessRecord { guess, hints });
            self.state = SessionState::Won;
            proof {
                assert(self.history@.drop_last() =~= pre_history);
            }
            Ok(SubmissionResult::Victory { attempts })
        } else if self.attempts == self.max_attempts {
            let hints = get_hints(&guess, &self.secret);
            self.history.push(GuessRecord { guess, hints });
            self.state = SessionState::Exhausted;
            proof {
                assert(self.history@.drop_last() =~= pre_history);
            }
            Ok(SubmissionResult::GameOver)
        } else {
            // Scored once for the caller and once for the record; the
            // contract of `get_hints` makes the two results equal.
            let hints = get_hints(&guess, &self.secret);
            let record_hints = get_hints(&guess, &self.secret);
            self.history.push(GuessRecord { guess, hints: record_hints });
            proof {
                assert(self.history@.drop_last() =~= pre_history);
            }
            Ok(SubmissionResult::InProgress { hints })
        }
    }
}

/// What a valid submission does: it consumes one attempt, appends the
/// scored record, and returns victory, game over, or the hints, by
/// whether the guess equals the secret and whether the budget is spent.
pub open spec fn submit_valid_post(
    pre: Session,
    post: Session,
    g: Seq<Color>,
    r: Result<SubmissionResult, SessionError>,
) -> bool {
    &&& post.attempts == pre.attempts + 1
    &&& post.history@.len() == pre.history@.len() + 1
    &&& post.history@.drop_last() == pre.history@
    &&& post.history@.last().guess@ == g
    &&& post.history@.last().hints@ == hint_seq(g, pre.secret@)
    &&& (g == pre.secret@ ==> post.state is Won && r == Ok::<SubmissionResult, SessionError>(
        SubmissionResult::Victory { attempts: post.attempts },
    ))
    &&& (g != pre.secret@ && post.attempts == pre.max_attempts ==> post.state is Exhausted && r
        == Ok::<SubmissionResult, SessionError>(SubmissionResult::GameOver))
    &&& (g != pre.secret@ && post.attempts < pre.max_attempts ==> post.state is AwaitingGuess && (
    r matches Ok(res) && res matches SubmissionResult::InProgress { hints } && hints@ == hint_seq(
        g,
        pre.secret@,
    )))
}

/// Relies on rand's `IndexedRandom::choose` on a slice, which returns
/// `Some` of a uniformly sampled element whenever the slice is nonempty,
/// and on `rand::rng()` for the generator it samples with.
#[verifier::external_body]
fn choose_color(choices: &Vec<Color>) -> (r: Color)
    requires
        choices@.len() > 0,
    ensures
        choices@.contains(r),
{
    let mut rng = rand::rng();
    *choices.choose(&mut rng).unwrap()
}

/// Draw a fresh secret: `CODE_LENGTH` colors, each sampled independently
/// from the nine-value color set.
pub fn get_code() -> (code: Vec<Color>)
    ensures
        code@.len() == CODE_LENGTH,
{
    let mut choices: Vec<Color> = Vec::new();
    choices.push(Color::Red);
    choices.push(Color::Brown);
    choices.push(Color::Yellow);
    choices.push(Color::Green);
    choices.push(Color::Black);
    choices.push(Color::White);
    choices.push(Color::Orange);
    choices.push(Color::Blue);
    choices.push(Color::Blank);
    let mut code: Vec<Color> = Vec::new();
    let mut i: usize = 0;
    while i < CODE_LENGTH
        invariant
            i <= CODE_LENGTH,
            code@.len() == i,
            choices@.len() == 9,
        decreases CODE_LENGTH - i,
    {
        let c = choose_color(&choices);
        code.push(c);
        i += 1;
    }
    code
}

} // verus!
