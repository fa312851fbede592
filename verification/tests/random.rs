use pw::generator::random::generate_password;
use pw::generator::random::generate_uuid;

#[test]
fn password_has_correct_length() {
    let charset: Vec<char> = "abc123".chars().collect();
    let pw = generate_password(&charset, 20);
    assert_eq!(pw.len(), 20);
}

#[test]
fn password_uses_only_charset() {
    let charset: Vec<char> = "abc".chars().collect();
    let pw = generate_password(&charset, 100);
    assert!(pw.chars().all(|c| charset.contains(&c)));
}

#[test]
fn uuid_format() {
    let uuid = generate_uuid();
    assert_eq!(uuid.len(), 36);
    let parts: Vec<&str> = uuid.split('-').collect();
    assert_eq!(parts.len(), 5);
    assert_eq!(parts[0].len(), 8);
    assert_eq!(parts[1].len(), 4);
    assert_eq!(parts[2].len(), 4);
    assert_eq!(parts[3].len(), 4);
    assert_eq!(parts[4].len(), 12);
    // Version 4
    assert!(parts[2].starts_with('4'));
}

#[test]
fn uuid_is_lowercase_hex_with_variant() {
    let uuid = generate_uuid();
    for (i, c) in uuid.chars().enumerate() {
        if i == 8 || i == 13 || i == 18 || i == 23 {
            assert_eq!(c, '-');
        } else {
            assert!(c.is_ascii_hexdigit() && !c.is_ascii_uppercase());
        }
    }
    let variant = uuid.chars().nth(19).unwrap();
    assert!(matches!(variant, '8' | '9' | 'a' | 'b'));
}

#[test]
fn password_length_zero_is_empty() {
    let charset: Vec<char> = "abc".chars().collect();
    let pw = generate_password(&charset, 0);
    assert_eq!(pw.len(), 0);
}

#[test]
fn password_characters_are_roughly_uniform() {
    let charset: Vec<char> = "abcd".chars().collect();
    let pw = generate_password(&charset, 10000);
    for want in &charset {
        let count = pw.chars().filter(|c| c == want).count();
        // Expected 2500 draws out of 10000; ten standard deviations of slack.
        assert!(
            2000 < count && count < 3000,
            "character {want} appeared {count} times in 10000 draws"
        );
    }
}
