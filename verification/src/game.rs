//! The number-guessing game engine: a secret number, an attempt budget, and
//! the classification of one guess.
//!
//! The whole behaviour of a guess is captured by two specifications:
//! [`step_spec`] says how the game state changes, and [`result_is_for`] says
//! which result is returned. The proof functions at the end state the
//! engine's laws over those specifications.

use rand::Rng;
use vstd::prelude::*;
use vstd::string::StringExecFns;
use crate::text::dec_str;
use crate::text::lemma_parse_of_dec_str;
use crate::text::parse_trimmed_u32;
use crate::text::parse_trimmed_u32_spec;

verus! {

pub const MIN_NUMBER: u32 = 1;

pub const MAX_NUMBER: u32 = 100;

pub const MAX_ATTEMPTS: u32 = 10;

/// The classification of one guess. Malformed or out-of-range input is an
/// ordinary outcome, not an error: it carries the message shown to the
/// player and costs no attempt.
pub enum GuessResult {
    TooHigh,
    TooLow,
    Correct,
    Invalid(String),
}

pub struct Game {
    pub secret_number: u32,
    pub attempts_left: u32,
}

pub open spec fn in_range(n: u32) -> bool {
    MIN_NUMBER <= n <= MAX_NUMBER
}

/// A guess that costs an attempt: it parses and lies within the range.
pub open spec fn is_valid_guess(input: Seq<char>) -> bool {
    match parse_trimmed_u32_spec(input) {
        Some(n) => in_range(n),
        None => false,
    }
}

/// The game state after processing one line of input: a valid guess costs
/// one attempt, anything else leaves the state unchanged.
pub open spec fn step_spec(g: Game, input: Seq<char>) -> Game {
    if is_valid_guess(input) {
        Game { secret_number: g.secret_number, attempts_left: (g.attempts_left - 1) as u32 }
    } else {
        g
    }
}

/// The result owed for one line of input on game state `g`.
pub open spec fn result_is_for(r: GuessResult, g: Game, input: Seq<char>) -> bool {
    match parse_trimmed_u32_spec(input) {
        Some(n) => if in_range(n) {
            if n < g.secret_number {
                r == GuessResult::TooLow
            } else if n > g.secret_number {
                r == GuessResult::TooHigh
            } else {
                r == GuessResult::Correct
            }
        } else {
            r matches GuessResult::Invalid(m) && m@ == "Please enter a number between 1 and 100"@
        },
        None => r matches GuessResult::Invalid(m) && m@ == "Please enter a valid number"@,
    }
}

impl Game {
    pub open spec fn wf(self) -> bool {
        in_range(self.secret_number) && self.attempts_left <= MAX_ATTEMPTS
    }

    pub open spec fn is_over_spec(self) -> bool {
        self.attempts_left == 0
    }

    /// A fresh game whose secret is supplied by the caller, for tests and
    /// for any other deterministic number source.
    pub fn with_secret(secret: u32) -> (g: Game)
        requires
            in_range(secret),
        ensures
            g.secret_number == secret,
            g.attempts_left == MAX_ATTEMPTS,
            g.wf(),
    {
        Game { secret_number: secret, attempts_left: MAX_ATTEMPTS }
    }

    /// A fresh game with a randomly drawn secret.
    pub fn new() -> (g: Game)
        ensures
            g.attempts_left == MAX_ATTEMPTS,
            g.wf(),
    {
        Game::with_secret(sample_in_range(MIN_NUMBER, MAX_NUMBER))
    }

    /// Trims and parses one line of input, then classifies it against the
    /// secret. Only a parsed, in-range guess costs an attempt.
    pub fn process_guess(&mut self, guess: &str) -> (r: GuessResult)
        requires
            old(self).attempts_left > 0,
        ensures
            *final(self) == step_spec(*old(self), guess@),
            result_is_for(r, *old(self), guess@),
            old(self).wf() ==> final(self).wf(),
    {
        match parse_trimmed_u32(guess) {
            Option::Some(num) => {
                if num < MIN_NUMBER || num > MAX_NUMBER {
                    GuessResult::Invalid(
                        String::from_str("Please enter a number between 1 and 100"),
                    )
                } else {
                    self.attempts_left = self.attempts_left - 1;
                    if num < self.secret_number {
                        GuessResult::TooLow
                    } else if num > self.secret_number {
                        GuessResult::TooHigh
                    } else {
                        GuessResult::Correct
                    }
                }
            },
            Option::None => GuessResult::Invalid(String::from_str("Please enter a valid number")),
        }
    }

    pub fn is_game_over(&self) -> (r: bool)
        ensures
            r == self.is_over_spec(),
    {
        self.attempts_left == 0
    }

    pub fn attempts_left(&self) -> (r: u32)
        ensures
            r == self.attempts_left,
    {
        self.attempts_left
    }

    pub fn secret_number(&self) -> (r: u32)
        ensures
            r == self.secret_number,
    {
        self.secret_number
    }
}

/// Relies on rand::Rng::gen_range over rand::thread_rng: a value drawn from
/// the given inclusive range, which must not be empty.
#[verifier::external_body]
fn sample_in_range(lo: u32, hi: u32) -> (r: u32)
    requires
        lo <= hi,
    ensures
        lo <= r <= hi,
{
    rand::thread_rng().gen_range(lo..=hi)
}

/// The game state after a whole sequence of input lines.
pub open spec fn run_guesses(g: Game, inputs: Seq<Seq<char>>) -> Game
    decreases inputs.len(),
{
    if inputs.len() == 0 {
        g
    } else {
        run_guesses(step_spec(g, inputs[0]), inputs.drop_first())
    }
}

/// How many of the input lines are valid guesses.
pub open spec fn count_valid(inputs: Seq<Seq<char>>) -> int
    decreases inputs.len(),
{
    if inputs.len() == 0 {
        0
    } else {
        (if is_valid_guess(inputs[0]) {
            1int
        } else {
            0int
        }) + count_valid(inputs.drop_first())
    }
}

proof fn lemma_count_valid_bounds(inputs: Seq<Seq<char>>)
    ensures
        0 <= count_valid(inputs) <= inputs.len(),
    decreases inputs.len(),
{
    if inputs.len() > 0 {
        lemma_count_valid_bounds(inputs.drop_first());
    }
}

/// A guess on a fresh game costs exactly one attempt, leaves the secret
/// unchanged, and is classified by comparing the guessed number with the
/// secret.
pub proof fn lemma_first_guess(g: Game, input: Seq<char>, n: u32)
    requires
        g.attempts_left == MAX_ATTEMPTS,
        parse_trimmed_u32_spec(input) == Some(n),
        in_range(n),
    ensures
        step_spec(g, input).attempts_left == MAX_ATTEMPTS - 1,
        step_spec(g, input).secret_number == g.secret_number,
        forall|r: GuessResult|
            result_is_for(r, g, input) ==> r == (if n < g.secret_number {
                GuessResult::TooLow
            } else if n > g.secret_number {
                GuessResult::TooHigh
            } else {
                GuessResult::Correct
            }),
{
}

/// An input that does not parse to an in-range number never changes the
/// game state.
pub proof fn lemma_invalid_guess_free(g: Game, input: Seq<char>)
    requires
        !is_valid_guess(input),
    ensures
        step_spec(g, input) == g,
{
}

/// Feeding the rendering of the game's own secret back as a guess is a
/// valid guess, costs exactly one attempt, and is always judged `Correct`.
pub proof fn lemma_round_trip_guess(g: Game)
    requires
        g.wf(),
        g.attempts_left > 0,
    ensures
        is_valid_guess(dec_str(g.secret_number as int)),
        step_spec(g, dec_str(g.secret_number as int)).attempts_left == g.attempts_left - 1,
        forall|r: GuessResult|
            result_is_for(r, g, dec_str(g.secret_number as int)) ==> r == GuessResult::Correct,
{
    lemma_parse_of_dec_str(g.secret_number);
}

/// Over any sequence of input lines, the attempt budget drops by exactly
/// the number of valid guesses among them; invalid lines never count.
pub proof fn lemma_budget_counts_only_valid(g: Game, inputs: Seq<Seq<char>>)
    requires
        count_valid(inputs) <= g.attempts_left,
    ensures
        run_guesses(g, inputs).secret_number == g.secret_number,
        run_guesses(g, inputs).attempts_left == g.attempts_left - count_valid(inputs),
    decreases inputs.len(),
{
    lemma_count_valid_bounds(inputs);
    if inputs.len() > 0 {
        let rest = inputs.drop_first();
        lemma_count_valid_bounds(rest);
        lemma_budget_counts_only_valid(step_spec(g, inputs[0]), rest);
    }
}

/// After exactly `MAX_ATTEMPTS` valid guesses from a fresh game, the budget
/// is exhausted and the game is over.
pub proof fn lemma_exhausting_attempts(g: Game, inputs: Seq<Seq<char>>)
    requires
        g.attempts_left == MAX_ATTEMPTS,
        inputs.len() == MAX_ATTEMPTS,
        forall|i: int| 0 <= i < inputs.len() ==> is_valid_guess(#[trigger] inputs[i]),
    ensures
        run_guesses(g, inputs).attempts_left == 0,
        run_guesses(g, inputs).is_over_spec(),
    decreases inputs.len(),
{
    lemma_count_valid_all(inputs);
    lemma_budget_counts_only_valid(g, inputs);
}

proof fn lemma_count_valid_all(inputs: Seq<Seq<char>>)
    requires
        forall|i: int| 0 <= i < inputs.len() ==> is_valid_guess(#[trigger] inputs[i]),
    ensures
        count_valid(inputs) == inputs.len(),
    decreases inputs.len(),
{
    if inputs.len() > 0 {
        let rest = inputs.drop_first();
        assert(forall|i: int| 0 <= i < rest.len() ==> is_valid_guess(#[trigger] rest[i]));
        lemma_count_valid_all(rest);
    }
}

} // verus!
