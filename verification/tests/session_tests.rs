use guessing_game::session::Classification;
use guessing_game::session::Phase;
use guessing_game::session::Prompt;
use guessing_game::session::Reply;
use guessing_game::session::Session;
use guessing_game::session::classify;

#[test]
fn classify_below_target() {
    assert_eq!(classify(5, 7), Classification::TooSmall);
}

#[test]
fn classify_above_target() {
    assert_eq!(classify(9, 7), Classification::TooBig);
}

#[test]
fn classify_match() {
    assert_eq!(classify(7, 7), Classification::Win);
}

#[test]
fn fixed_target_too_small_too_big_then_win() {
    // Target fixed at 42: guesses 10, 90, 42 answer too small, too big, win,
    // and the session ends after three rounds with two attempts spent.
    let mut s = Session::new(42, 5);

    assert_eq!(s.begin_round(), Prompt::Ask(5));
    assert_eq!(s.submit(b"10"), Reply::Guessed(10, Classification::TooSmall));
    assert_eq!(s.lives, 4);

    assert_eq!(s.begin_round(), Prompt::Ask(4));
    assert_eq!(s.submit(b"90"), Reply::Guessed(90, Classification::TooBig));
    assert_eq!(s.lives, 3);

    assert_eq!(s.begin_round(), Prompt::Ask(3));
    assert_eq!(s.submit(b"42"), Reply::Guessed(42, Classification::Win));
    assert_eq!(s.phase, Phase::Won);
    assert_eq!(s.lives, 3);
    assert!(s.is_over());
}

#[test]
fn five_misses_exhaust_the_budget() {
    // Target fixed at 7: five guesses below it spend the whole budget, and
    // the next prompt reports the loss, disclosing the target.
    let mut s = Session::new(7, 5);
    let guesses: [&[u8]; 5] = [b"1", b"2", b"3", b"4", b"5"];
    for (round, g) in guesses.iter().enumerate() {
        assert_eq!(s.begin_round(), Prompt::Ask(5 - round as u32));
        let reply = s.submit(g);
        assert!(matches!(reply, Reply::Guessed(_, Classification::TooSmall)));
    }
    assert_eq!(s.lives, 0);
    assert_eq!(s.phase, Phase::AwaitingInput);
    assert_eq!(s.begin_round(), Prompt::Lose(7));
    assert_eq!(s.phase, Phase::Lost);
    assert!(s.is_over());
}

#[test]
fn malformed_lines_change_nothing() {
    let mut s = Session::new(33, 5);
    for _ in 0..10 {
        assert_eq!(s.submit(b"abc"), Reply::Malformed);
        assert_eq!(s.lives, 5);
        assert_eq!(s.target, 33);
        assert_eq!(s.phase, Phase::AwaitingInput);
    }
    assert!(!s.is_over());
}

#[test]
fn win_spends_no_attempt() {
    let mut s = Session::new(100, 2);
    assert_eq!(s.submit(b"100"), Reply::Guessed(100, Classification::Win));
    assert_eq!(s.lives, 2);
    assert_eq!(s.phase, Phase::Won);
}

#[test]
fn whitespace_and_plus_sign_still_parse() {
    let mut s = Session::new(8, 3);
    assert_eq!(s.submit(b"  +8 \n"), Reply::Guessed(8, Classification::Win));
    assert_eq!(s.phase, Phase::Won);
}

#[test]
fn apply_guess_matches_submit() {
    let mut s = Session::new(50, 5);
    assert_eq!(s.apply_guess(49), Classification::TooSmall);
    assert_eq!(s.apply_guess(51), Classification::TooBig);
    assert_eq!(s.lives, 3);
    assert_eq!(s.apply_guess(50), Classification::Win);
    assert_eq!(s.lives, 3);
    assert_eq!(s.phase, Phase::Won);
}

#[test]
fn start_draws_target_within_range() {
    let s = Session::start(1, 100, 5);
    assert!(1 <= s.target && s.target <= 100);
    assert_eq!(s.lives, 5);
    assert_eq!(s.phase, Phase::AwaitingInput);
}

#[test]
fn start_with_single_point_range_pins_the_target() {
    let s = Session::start(64, 64, 3);
    assert_eq!(s.target, 64);
}

#[test]
fn new_session_keeps_its_arguments() {
    let s = Session::new(17, 9);
    assert_eq!(s.target, 17);
    assert_eq!(s.lives, 9);
    assert_eq!(s.phase, Phase::AwaitingInput);
}

#[test]
fn zero_budget_loses_at_the_first_prompt() {
    let mut s = Session::new(12, 0);
    assert_eq!(s.begin_round(), Prompt::Lose(12));
    assert_eq!(s.phase, Phase::Lost);
}
