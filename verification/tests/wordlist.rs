use pw::wordlist::get_wordlist;
use pw::wordlist::parse_wordlist;
use std::collections::HashSet;

#[test]
fn wordlist_loaded() {
    let wl = get_wordlist();
    assert_eq!(wl.len(), 7776);
}

#[test]
fn words_are_valid() {
    let wl = get_wordlist();
    for word in &wl {
        assert!(
            word.chars().all(|c| c.is_alphabetic() || c == '-'),
            "Invalid word: {word}"
        );
    }
}

#[test]
fn words_are_distinct() {
    let wl = get_wordlist();
    let unique: HashSet<&String> = wl.iter().collect();
    assert_eq!(unique.len(), wl.len());
}

#[test]
fn words_follow_the_syllable_formula() {
    let wl = get_wordlist();
    // Index 0 has base-six digits 0,0,0,0,0; index 1 ends in digit 1;
    // index 7775 has digits 5,5,5,5,5.
    assert_eq!(wl[0], "bababababa");
    assert_eq!(wl[1], "babababade");
    assert_eq!(wl[6], "bababadeba");
    assert_eq!(wl[7775], "tatatatata");
}

#[test]
fn parse_keeps_only_word_fields() {
    let words = parse_wordlist("11111\tabacus\n11112\tabdomen\n11113\tabide\n");
    assert_eq!(words, vec!["abacus", "abdomen", "abide"]);
}

#[test]
fn parse_skips_lines_without_a_word() {
    let words = parse_wordlist("prologue\n11111\tabacus\n\n11112\t\n11113\tabide");
    assert_eq!(words, vec!["abacus", "abide"]);
}

#[test]
fn parse_cuts_at_the_second_tab_and_strips_cr() {
    let words = parse_wordlist("11111\tabacus\textra\r\n11112\tabdomen\r\n");
    assert_eq!(words, vec!["abacus", "abdomen"]);
}

#[test]
fn parse_of_empty_text_is_empty() {
    let words = parse_wordlist("");
    assert!(words.is_empty());
}

#[test]
fn words_are_non_empty_lowercase() {
    let wl = get_wordlist();
    for word in &wl {
        assert!(!word.is_empty());
        assert!(word.chars().all(|c| c.is_ascii_lowercase()));
    }
}
