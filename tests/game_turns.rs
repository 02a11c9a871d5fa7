use wordle::feedback::Mark;
use wordle::game::{ErrorKind, Guess, Status, Wordle};
use wordle::lexicon::{Lexicon, SetupError};

fn lexicon() -> Lexicon {
    let ws = ["crane", "slate", "pious", "mound", "flick", "dirty", "eerie", "hello"];
    Lexicon::from_lines(&ws.iter().map(|w| w.to_string()).collect())
}

fn guess(w: &str) -> Guess {
    let mut g = Guess::new();
    g.word = w.to_string();
    g
}

#[test]
fn guess_new_is_empty() {
    let g = Guess::new();
    assert_eq!(g.word, "");
    assert!(g.marks.is_empty());
}

#[test]
fn new_game_validates_its_target() {
    assert!(matches!(Wordle::new(lexicon(), "cran"), Err(ErrorKind::WordNotFiveChars)));
    assert!(matches!(Wordle::new(lexicon(), "zzzzz"), Err(ErrorKind::WordNotInWordlist)));
    let game = Wordle::new(lexicon(), " CRANE ").ok().unwrap();
    assert_eq!(game.word(), "crane");
    assert_eq!(game.status(), Status::InProgress);
    assert_eq!(game.guesses_left(), 6);
}

#[test]
fn wrong_length_guesses_are_refused() {
    let mut game = Wordle::new(lexicon(), "crane").ok().unwrap();
    assert_eq!(game.try_guess_word(&mut guess("cran")), Err(ErrorKind::WordNotFiveChars));
    assert_eq!(game.try_guess_word(&mut guess("cranes")), Err(ErrorKind::WordNotFiveChars));
    assert_eq!(game.guesses_left(), 6);
}

#[test]
fn unknown_words_are_refused() {
    let mut game = Wordle::new(lexicon(), "crane").ok().unwrap();
    let mut g = guess("zzzzz");
    assert_eq!(game.try_guess_word(&mut g), Err(ErrorKind::WordNotInWordlist));
    assert!(g.marks.is_empty());
    assert_eq!(game.history_len(), 0);
}

#[test]
fn length_is_tested_before_membership() {
    let mut game = Wordle::new(lexicon(), "crane").ok().unwrap();
    assert_eq!(game.try_guess_word(&mut guess("zz")), Err(ErrorKind::WordNotFiveChars));
}

#[test]
fn a_scored_guess_gets_feedback() {
    let mut game = Wordle::new(lexicon(), "crane").ok().unwrap();
    let mut g = guess("Eerie");
    assert_eq!(game.try_guess_word(&mut g), Ok(()));
    assert_eq!(g.word, "eerie");
    assert_eq!(g.marks, vec![Mark::Absent, Mark::Absent, Mark::Present, Mark::Absent, Mark::Exact]);
    assert_eq!(game.guesses_left(), 5);
    assert_eq!(game.status(), Status::InProgress);
}

#[test]
fn six_misses_lose_the_game() {
    let mut game = Wordle::new(lexicon(), "crane").ok().unwrap();
    let misses = ["slate", "pious", "mound", "flick", "dirty", "slate"];
    for (i, w) in misses.iter().enumerate() {
        assert_eq!(game.status(), Status::InProgress);
        assert_eq!(game.try_guess_word(&mut guess(w)), Ok(()));
        assert_eq!(game.history_len(), i + 1);
    }
    assert_eq!(game.status(), Status::Lost);
    assert_eq!(game.try_guess_word(&mut guess("crane")), Err(ErrorKind::GameIsOver));
    assert_eq!(game.history_len(), 6);
}

#[test]
fn guessing_the_target_wins_at_once() {
    let mut game = Wordle::new(lexicon(), "crane").ok().unwrap();
    assert_eq!(game.try_guess_word(&mut guess("slate")), Ok(()));
    let mut g = guess("crane");
    assert_eq!(game.try_guess_word(&mut g), Ok(()));
    assert_eq!(g.marks, vec![Mark::Exact; 5]);
    assert_eq!(game.status(), Status::Won);
    assert_eq!(game.try_guess_word(&mut guess("slate")), Err(ErrorKind::GameIsOver));
}

#[test]
fn win_on_the_last_turn() {
    let mut game = Wordle::new(lexicon(), "crane").ok().unwrap();
    for w in ["slate", "pious", "mound", "flick", "dirty"] {
        assert_eq!(game.try_guess_word(&mut guess(w)), Ok(()));
    }
    assert_eq!(game.try_guess_word(&mut guess("crane")), Ok(()));
    assert_eq!(game.status(), Status::Won);
}

#[test]
fn random_game_on_empty_lexicon_fails() {
    let empty = Lexicon::from_lines(&Vec::new());
    assert!(matches!(Wordle::pick_random_word(empty), Err(SetupError::EmptyLexiconError)));
}

#[test]
fn random_game_target_is_a_lexicon_word() {
    let game = Wordle::pick_random_word(lexicon()).ok().unwrap();
    assert!(lexicon().contains(game.word()));
    assert_eq!(game.status(), Status::InProgress);
}
