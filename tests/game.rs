use number_guess::{parse_decimal_u32, read_guess, Difficulty, GameState, GuessOutcome};

const ALL: [Difficulty; 3] = [Difficulty::Easy, Difficulty::Medium, Difficulty::Hard];

#[test]
fn difficulty_ranges_and_attempts() {
    assert_eq!(Difficulty::Easy.range(), 1..=100);
    assert_eq!(Difficulty::Medium.range(), 1..=500);
    assert_eq!(Difficulty::Hard.range(), 1..=1000);
    assert_eq!(Difficulty::Easy.attempts(), 10);
    assert_eq!(Difficulty::Medium.attempts(), 9);
    assert_eq!(Difficulty::Hard.attempts(), 8);
}

#[test]
fn difficulty_from_choice() {
    assert_eq!(Difficulty::from_choice(0), Difficulty::Easy);
    assert_eq!(Difficulty::from_choice(1), Difficulty::Medium);
    assert_eq!(Difficulty::from_choice(2), Difficulty::Hard);
    assert_eq!(Difficulty::from_choice(-1), Difficulty::Easy);
    assert_eq!(Difficulty::from_choice(3), Difficulty::Easy);
}

#[test]
fn new_game_draws_secret_in_range() {
    for d in ALL {
        for _ in 0..200 {
            let g = GameState::new(d);
            assert!(d.range().contains(&g.secret()));
            assert_eq!(g.remaining_attempts(), d.attempts());
            assert_eq!(g.difficulty(), d);
            assert!(!g.is_over());
        }
    }
}

#[test]
fn with_secret_checks_range() {
    assert!(GameState::with_secret(Difficulty::Easy, 0).is_none());
    assert!(GameState::with_secret(Difficulty::Easy, 101).is_none());
    assert!(GameState::with_secret(Difficulty::Medium, 501).is_none());
    assert!(GameState::with_secret(Difficulty::Hard, 1001).is_none());
    let g = GameState::with_secret(Difficulty::Hard, 1000).unwrap();
    assert_eq!(g.secret(), 1000);
    assert_eq!(g.remaining_attempts(), 8);
    let g = GameState::with_secret(Difficulty::Easy, 1).unwrap();
    assert_eq!(g.secret(), 1);
    assert!(!g.is_over());
}

#[test]
fn easy_scenario_win() {
    let mut g = GameState::with_secret(Difficulty::Easy, 42).unwrap();
    assert_eq!(g.remaining_attempts(), 10);
    assert_eq!(g.guess("50"), GuessOutcome::TooHigh { guess: 50 });
    assert_eq!(g.remaining_attempts(), 9);
    assert_eq!(g.guess("10"), GuessOutcome::TooLow { guess: 10 });
    assert_eq!(g.remaining_attempts(), 8);
    assert_eq!(g.guess("42"), GuessOutcome::Correct { guess: 42 });
    assert_eq!(g.remaining_attempts(), 7);
    assert!(g.is_over());
}

#[test]
fn medium_scenario_exhausted() {
    let mut g = GameState::with_secret(Difficulty::Medium, 7).unwrap();
    assert_eq!(g.remaining_attempts(), 9);
    for (i, n) in [1u32, 2, 3, 4, 5, 6, 8, 9].iter().enumerate() {
        let out = g.guess(&n.to_string());
        if *n < 7 {
            assert_eq!(out, GuessOutcome::TooLow { guess: *n });
        } else {
            assert_eq!(out, GuessOutcome::TooHigh { guess: *n });
        }
        assert_eq!(g.remaining_attempts(), 8 - i as u32);
        assert!(!g.is_over());
    }
    assert_eq!(g.remaining_attempts(), 1);
    assert_eq!(g.guess("100"), GuessOutcome::ExhaustedAttempts { guess: 100, secret: 7 });
    assert_eq!(g.remaining_attempts(), 0);
    assert!(g.is_over());
}

#[test]
fn fractional_and_blank_input_invalid() {
    let mut g = GameState::with_secret(Difficulty::Easy, 30).unwrap();
    for _ in 0..3 {
        let before = g.remaining_attempts();
        assert_eq!(g.guess("3.5"), GuessOutcome::InvalidInput);
        assert_eq!(g.guess(" "), GuessOutcome::InvalidInput);
        assert_eq!(g.remaining_attempts(), before);
        assert!(!g.is_over());
        assert_eq!(g.guess("20"), GuessOutcome::TooLow { guess: 20 });
    }
    assert_eq!(g.remaining_attempts(), 7);
}

#[test]
fn non_numeric_input_invalid() {
    for d in ALL {
        let mut g = GameState::with_secret(d, 5).unwrap();
        for s in ["abc", "", "-5", "5a", "+", "++5", "4294967296", "1 2"] {
            assert_eq!(g.guess(s), GuessOutcome::InvalidInput);
            assert_eq!(g.remaining_attempts(), d.attempts());
            assert_eq!(g.secret(), 5);
            assert!(!g.is_over());
        }
    }
}

#[test]
fn guess_after_end_changes_nothing() {
    let mut g = GameState::with_secret(Difficulty::Hard, 999).unwrap();
    assert_eq!(g.guess("999"), GuessOutcome::Correct { guess: 999 });
    for s in ["999", "1", "abc", ""] {
        assert_eq!(g.guess(s), GuessOutcome::AlreadyOver);
        assert_eq!(g.remaining_attempts(), 7);
        assert_eq!(g.secret(), 999);
        assert!(g.is_over());
    }
}

#[test]
fn guess_after_loss_changes_nothing() {
    let mut g = GameState::with_secret(Difficulty::Hard, 500).unwrap();
    for _ in 0..7 {
        assert_eq!(g.guess("1"), GuessOutcome::TooLow { guess: 1 });
    }
    assert_eq!(g.guess("1000"), GuessOutcome::ExhaustedAttempts { guess: 1000, secret: 500 });
    assert_eq!(g.guess("500"), GuessOutcome::AlreadyOver);
    assert_eq!(g.remaining_attempts(), 0);
    assert_eq!(g.secret(), 500);
}

#[test]
fn last_attempt_miss_reveals_secret() {
    for d in ALL {
        for wrong in ["1", "64", "4294967295"] {
            let mut g = GameState::with_secret(d, 63).unwrap();
            while g.remaining_attempts() > 1 {
                g.guess("2");
            }
            let n: u32 = wrong.parse().unwrap();
            assert_eq!(g.guess(wrong), GuessOutcome::ExhaustedAttempts { guess: n, secret: 63 });
            assert!(g.is_over());
            assert_eq!(g.remaining_attempts(), 0);
        }
    }
}

#[test]
fn secret_wins_on_any_attempt() {
    for d in ALL {
        for used in 0..d.attempts() {
            let mut g = GameState::with_secret(d, 77).unwrap();
            for _ in 0..used {
                g.guess("78");
            }
            assert!(!g.is_over());
            assert_eq!(g.guess(" 77 "), GuessOutcome::Correct { guess: 77 });
            assert!(g.is_over());
            assert_eq!(g.remaining_attempts(), d.attempts() - used - 1);
        }
    }
}

#[test]
fn guess_surrounded_by_white_space() {
    let mut g = GameState::with_secret(Difficulty::Easy, 9).unwrap();
    assert_eq!(g.guess("\t 8\n"), GuessOutcome::TooLow { guess: 8 });
    assert_eq!(g.guess("\u{3000}+10\u{a0}"), GuessOutcome::TooHigh { guess: 10 });
    assert_eq!(g.remaining_attempts(), 8);
}

#[test]
fn read_guess_trims_white_space() {
    assert_eq!(read_guess("  42\n"), Some(42));
    assert_eq!(read_guess("\u{2003}7\u{2029}"), Some(7));
    assert_eq!(read_guess("\u{85}+3\r"), Some(3));
    assert_eq!(read_guess(" 4 2 "), None);
    assert_eq!(read_guess("\u{200b}5"), None);
    assert_eq!(read_guess(" \t "), None);
}

#[test]
fn parse_decimal_values() {
    assert_eq!(parse_decimal_u32("0"), Some(0));
    assert_eq!(parse_decimal_u32("007"), Some(7));
    assert_eq!(parse_decimal_u32("+5"), Some(5));
    assert_eq!(parse_decimal_u32("4294967295"), Some(u32::MAX));
    assert_eq!(parse_decimal_u32("4294967296"), None);
    assert_eq!(parse_decimal_u32("99999999999999999999999"), None);
    assert_eq!(parse_decimal_u32("99999999999999999999999x"), None);
    assert_eq!(parse_decimal_u32(""), None);
    assert_eq!(parse_decimal_u32("+"), None);
    assert_eq!(parse_decimal_u32("-0"), None);
    assert_eq!(parse_decimal_u32(" 5"), None);
    assert_eq!(parse_decimal_u32("\u{661}"), None);
}

#[test]
fn parse_decimal_agrees_with_std() {
    let cases = [
        "0", "1", "42", "+42", "-42", "", "+", "-", "++1", "+-1", "1e3", "3.5", "0x10",
        "4294967295", "4294967296", "00004294967295", " 1", "1 ", "١٢", "12a", "a12",
    ];
    for s in cases {
        assert_eq!(parse_decimal_u32(s), s.parse::<u32>().ok(), "{:?}", s);
    }
}
