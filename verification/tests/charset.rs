use pw::generator::charset::CharsetBuilder;
use pw::generator::random::generate_password;

#[test]
fn default_charset_has_all_types() {
    let chars = CharsetBuilder::new().build().unwrap();
    assert!(chars.iter().any(|c| c.is_ascii_uppercase()));
    assert!(chars.iter().any(|c| c.is_ascii_lowercase()));
    assert!(chars.iter().any(|c| c.is_ascii_digit()));
    assert!(chars.iter().any(|c| !c.is_alphanumeric()));
}

#[test]
fn no_ambiguous_removes_chars() {
    let chars = CharsetBuilder::new().no_ambiguous(true).build().unwrap();
    assert!(!chars.contains(&'0'));
    assert!(!chars.contains(&'O'));
    assert!(!chars.contains(&'l'));
    assert!(!chars.contains(&'I'));
}

#[test]
fn charset_digits_only() {
    let chars = CharsetBuilder::new()
        .uppercase(false)
        .lowercase(false)
        .symbols(false)
        .build()
        .unwrap();
    assert!(chars.iter().all(|c| c.is_ascii_digit()));
}

#[test]
fn hex_charset() {
    let chars = CharsetBuilder::new().hex_only(true).build().unwrap();
    assert_eq!(chars.len(), 16);
    assert!(chars.iter().all(|c| c.is_ascii_hexdigit()));
}

#[test]
fn custom_symbols() {
    let chars = CharsetBuilder::new()
        .uppercase(false)
        .lowercase(false)
        .digits(false)
        .custom_symbols(Some("!@#".to_string()))
        .build()
        .unwrap();
    assert_eq!(chars, vec!['!', '@', '#']);
}

#[test]
fn empty_charset_is_error() {
    let built = CharsetBuilder::new()
        .uppercase(false)
        .lowercase(false)
        .digits(false)
        .symbols(false)
        .build();
    assert!(built.is_err());
}

#[test]
fn all_ambiguous_custom_set_is_error() {
    let built = CharsetBuilder::new()
        .uppercase(false)
        .lowercase(false)
        .digits(false)
        .custom_symbols(Some("0O1lI|".to_string()))
        .no_ambiguous(true)
        .build();
    assert!(built.is_err());
}

#[test]
fn no_ambiguous_password_is_clean() {
    let chars = CharsetBuilder::new().no_ambiguous(true).build().unwrap();
    let pw = generate_password(&chars, 2000);
    for c in pw.chars() {
        assert!(!"0O1lI|".contains(c), "ambiguous character {c} in output");
    }
}

#[test]
fn custom_symbols_keep_given_order() {
    let chars = CharsetBuilder::new()
        .uppercase(false)
        .lowercase(false)
        .digits(false)
        .custom_symbols(Some("zyx9".to_string()))
        .build()
        .unwrap();
    assert_eq!(chars, vec!['z', 'y', 'x', '9']);
}
