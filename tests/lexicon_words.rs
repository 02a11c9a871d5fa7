use wordle::lexicon::{normalize, Lexicon, SetupError};

fn lines(ws: &[&str]) -> Vec<String> {
    ws.iter().map(|w| w.to_string()).collect()
}

#[test]
fn normalize_trims_and_lowers() {
    assert_eq!(normalize("  CRANE \r\n"), "crane");
    assert_eq!(normalize("Slate"), "slate");
    assert_eq!(normalize("   "), "");
    assert_eq!(normalize("crane"), "crane");
}

#[test]
fn from_lines_keeps_five_letter_words() {
    let lex = Lexicon::from_lines(&lines(&["crane", "apple\r", "toolong", "abc", " Slate ", ""]));
    assert_eq!(lex.len(), 3);
    assert!(lex.contains("crane"));
    assert!(lex.contains("apple"));
    assert!(lex.contains("slate"));
    assert!(!lex.contains("toolong"));
    assert!(!lex.contains("abc"));
}

#[test]
fn contains_normalizes_the_query() {
    let lex = Lexicon::from_lines(&lines(&["crane"]));
    assert!(lex.contains("CRANE"));
    assert!(lex.contains(" crane\n"));
    assert!(!lex.contains("zzzzz"));
}

#[test]
fn random_member_of_empty_lexicon_fails() {
    let lex = Lexicon::from_lines(&Vec::new());
    assert_eq!(lex.random_member(), Err(SetupError::EmptyLexiconError));
    let only_short = Lexicon::from_lines(&lines(&["abc", "toolong"]));
    assert_eq!(only_short.random_member(), Err(SetupError::EmptyLexiconError));
}

#[test]
fn random_member_is_a_member() {
    let lex = Lexicon::from_lines(&lines(&["crane", "slate", "pious"]));
    for _ in 0..20 {
        let w = lex.random_member().unwrap();
        assert!(lex.contains(&w));
    }
    let one = Lexicon::from_lines(&lines(&["Pious"]));
    assert_eq!(one.random_member(), Ok("pious".to_string()));
}
