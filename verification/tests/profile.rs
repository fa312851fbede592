use pw::profile::find_profile;
use pw::profile::get_profiles;
use pw::wordlist::get_wordlist;

#[test]
fn pin_profile_is_4_digits() {
    let profile = find_profile("pin").unwrap();
    let pw = profile.generate(&get_wordlist());
    assert_eq!(pw.len(), 4);
    assert!(pw.chars().all(|c| c.is_ascii_digit()));
}

#[test]
fn pin6_profile_is_6_digits() {
    let profile = find_profile("pin6").unwrap();
    let pw = profile.generate(&get_wordlist());
    assert_eq!(pw.len(), 6);
    assert!(pw.chars().all(|c| c.is_ascii_digit()));
}

#[test]
fn hex_profile_is_32_hex() {
    let profile = find_profile("hex").unwrap();
    let pw = profile.generate(&get_wordlist());
    assert_eq!(pw.len(), 32);
    assert!(pw.chars().all(|c| c.is_ascii_hexdigit()));
}

#[test]
fn uuid_profile_format() {
    let profile = find_profile("uuid").unwrap();
    let pw = profile.generate(&get_wordlist());
    assert_eq!(pw.len(), 36);
    assert_eq!(pw.matches('-').count(), 4);
}

#[test]
fn all_profiles_exist() {
    let names = [
        "pin",
        "pin6",
        "wifi",
        "strong",
        "alpha",
        "hex",
        "memorable",
        "uuid",
    ];
    for name in names {
        assert!(find_profile(name).is_some(), "Profile '{name}' not found");
    }
}

#[test]
fn unknown_profile_returns_none() {
    assert!(find_profile("nonexistent").is_none());
}

#[test]
fn catalog_is_ordered_and_described() {
    let profiles = get_profiles();
    assert_eq!(profiles.len(), 8);
    let names: Vec<&str> = profiles.iter().map(|p| p.name).collect();
    assert_eq!(
        names,
        vec!["pin", "pin6", "wifi", "strong", "alpha", "hex", "memorable", "uuid"]
    );
    assert!(profiles.iter().all(|p| !p.description.is_empty()));
}

#[test]
fn wifi_profile_is_63_without_ambiguous() {
    let profile = find_profile("wifi").unwrap();
    let pw = profile.generate(&get_wordlist());
    assert_eq!(pw.chars().count(), 63);
    assert!(pw.chars().all(|c| !"0O1lI|".contains(c)));
}

#[test]
fn memorable_profile_is_a_passphrase() {
    let profile = find_profile("memorable").unwrap();
    let pw = profile.generate(&get_wordlist());
    assert_eq!(pw.split('-').count(), 4);
}

#[test]
fn alpha_profile_is_letters_only() {
    let profile = find_profile("alpha").unwrap();
    let pw = profile.generate(&get_wordlist());
    assert_eq!(pw.len(), 16);
    assert!(pw.chars().all(|c| c.is_ascii_alphabetic()));
}
