use rusty_dusty::game::{Game, GuessResult, MAX_ATTEMPTS};

#[test]
fn first_guess_costs_one_attempt_and_classifies() {
    // every in-range first guess costs exactly one attempt and is graded
    // against the secret
    for n in 1u32..=100 {
        let mut game = Game::with_secret(50);
        let outcome = game.process_guess(&format!("{}", n));
        assert_eq!(game.attempts_left(), MAX_ATTEMPTS - 1);
        assert_eq!(game.secret_number(), 50);
        match outcome {
            GuessResult::TooLow => assert!(n < 50),
            GuessResult::TooHigh => assert!(n > 50),
            GuessResult::Correct => assert_eq!(n, 50),
            GuessResult::Invalid(_) => panic!("in-range guess {} was rejected", n),
        }
    }
}

#[test]
fn invalid_inputs_cost_nothing() {
    let mut game = Game::with_secret(42);
    for bad in ["abc", "", "-5", "101", "0", "12abc", "+", "4294967296"] {
        let outcome = game.process_guess(bad);
        assert!(
            matches!(outcome, GuessResult::Invalid(_)),
            "input {:?} should be invalid",
            bad
        );
        assert_eq!(game.attempts_left(), MAX_ATTEMPTS);
    }
}

#[test]
fn invalid_messages_are_exact() {
    let mut game = Game::with_secret(42);
    match game.process_guess("abc") {
        GuessResult::Invalid(m) => assert_eq!(m, "Please enter a valid number"),
        _ => panic!("expected an invalid outcome"),
    }
    match game.process_guess("101") {
        GuessResult::Invalid(m) => {
            assert_eq!(m, "Please enter a number between 1 and 100")
        }
        _ => panic!("expected an invalid outcome"),
    }
    assert_eq!(game.attempts_left(), MAX_ATTEMPTS);
}

#[test]
fn exhausting_the_budget_ends_the_game() {
    let mut game = Game::with_secret(100);
    for i in 0..MAX_ATTEMPTS {
        assert!(!game.is_game_over());
        let outcome = game.process_guess("1");
        assert!(matches!(outcome, GuessResult::TooLow));
        assert_eq!(game.attempts_left(), MAX_ATTEMPTS - 1 - i);
    }
    assert!(game.is_game_over());
    assert_eq!(game.attempts_left(), 0);
}

#[test]
fn interleaved_invalid_guesses_never_count() {
    let mut game = Game::with_secret(60);
    let inputs = ["5", "abc", "90", "", "101", "30", "-1", "70"];
    let mut valid = 0;
    for input in inputs {
        let outcome = game.process_guess(input);
        if matches!(outcome, GuessResult::Invalid(_)) {
            assert_eq!(game.attempts_left(), MAX_ATTEMPTS - valid);
        } else {
            valid += 1;
            assert_eq!(game.attempts_left(), MAX_ATTEMPTS - valid);
        }
    }
    assert_eq!(valid, 4);
}

#[test]
fn correct_first_guess_round_trip() {
    let mut game = Game::with_secret(42);
    let secret = game.secret_number();
    let outcome = game.process_guess(&format!("{}", secret));
    assert!(matches!(outcome, GuessResult::Correct));
    assert_eq!(game.attempts_left(), MAX_ATTEMPTS - 1);
}

#[test]
fn guesses_are_trimmed_before_parsing() {
    let mut game = Game::with_secret(42);
    let outcome = game.process_guess("  42\n");
    assert!(matches!(outcome, GuessResult::Correct));
    assert_eq!(game.attempts_left(), MAX_ATTEMPTS - 1);
}

#[test]
fn new_game_draws_an_in_range_secret() {
    for _ in 0..50 {
        let game = Game::new();
        assert!(1 <= game.secret_number() && game.secret_number() <= 100);
        assert_eq!(game.attempts_left(), MAX_ATTEMPTS);
    }
}
