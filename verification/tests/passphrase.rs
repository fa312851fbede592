use pw::generator::passphrase::PassphraseOptions;
use pw::generator::passphrase::generate_passphrase;
use pw::wordlist::get_wordlist;

#[test]
fn default_passphrase_has_4_words() {
    let opts = PassphraseOptions::default();
    let wordlist = get_wordlist();
    let pp = generate_passphrase(&opts, &wordlist);
    let word_count = pp.split('-').count();
    assert_eq!(word_count, 4);
}

#[test]
fn custom_separator() {
    let opts = PassphraseOptions {
        separator: ".".to_string(),
        ..Default::default()
    };
    let wordlist = get_wordlist();
    let pp = generate_passphrase(&opts, &wordlist);
    assert!(pp.contains('.'));
    assert!(!pp.contains('-'));
}

#[test]
fn capitalize_words() {
    let opts = PassphraseOptions {
        capitalize: true,
        ..Default::default()
    };
    let wordlist = get_wordlist();
    let pp = generate_passphrase(&opts, &wordlist);
    for word in pp.split('-') {
        assert!(word.chars().next().unwrap().is_uppercase());
    }
}

#[test]
fn append_digit() {
    let opts = PassphraseOptions {
        append_digit: true,
        ..Default::default()
    };
    let wordlist = get_wordlist();
    let pp = generate_passphrase(&opts, &wordlist);
    assert!(pp.chars().last().unwrap().is_ascii_digit());
}

#[test]
fn passphrase_words_come_from_the_list() {
    let opts = PassphraseOptions {
        words: 6,
        ..Default::default()
    };
    let wordlist = get_wordlist();
    let pp = generate_passphrase(&opts, &wordlist);
    let segments: Vec<&str> = pp.split('-').collect();
    assert_eq!(segments.len(), 6);
    for word in segments {
        assert!(
            wordlist.iter().any(|w| w == word),
            "segment {word} is not a word of the list"
        );
    }
}

#[test]
fn single_word_passphrase_has_no_separator() {
    let opts = PassphraseOptions {
        words: 1,
        ..Default::default()
    };
    let wordlist = get_wordlist();
    let pp = generate_passphrase(&opts, &wordlist);
    assert!(!pp.contains('-'));
    assert!(!pp.is_empty());
}

#[test]
fn capitalize_and_digit_combine() {
    let opts = PassphraseOptions {
        capitalize: true,
        append_digit: true,
        ..Default::default()
    };
    let wordlist = get_wordlist();
    let pp = generate_passphrase(&opts, &wordlist);
    assert!(pp.chars().last().unwrap().is_ascii_digit());
    assert_eq!(pp.split('-').count(), 4);
    for word in pp.split('-') {
        assert!(word.chars().next().unwrap().is_ascii_uppercase());
    }
}

#[test]
fn multi_character_separator_is_kept_verbatim() {
    let opts = PassphraseOptions {
        words: 3,
        separator: "::".to_string(),
        ..Default::default()
    };
    let wordlist = get_wordlist();
    let pp = generate_passphrase(&opts, &wordlist);
    assert_eq!(pp.matches("::").count(), 2);
}
