use pw::entropy::analyze_password;
use pw::entropy::strength_bar;
use pw::entropy::strength_label;

#[test]
fn analyze_weak_password() {
    let info = analyze_password("1234");
    assert!(info.score <= 1);
}

#[test]
fn analyze_strong_password() {
    let info = analyze_password("j8#kL!m9@nQ2$pR5");
    assert!(info.score >= 3);
}

#[test]
fn strength_bar_fills_score_plus_one_segments() {
    for score in 0u8..=4 {
        let bar = strength_bar(score);
        let filled = bar.chars().filter(|c| *c == '\u{2588}').count();
        let empty = bar.chars().filter(|c| *c == '\u{2591}').count();
        assert_eq!(filled, score as usize + 1);
        assert_eq!(empty, 4 - score as usize);
        assert_eq!(bar.chars().count(), 5);
    }
}

#[test]
fn strength_bar_exact_rendering() {
    assert_eq!(strength_bar(0), "\u{2588}\u{2591}\u{2591}\u{2591}\u{2591}");
    assert_eq!(strength_bar(4), "\u{2588}\u{2588}\u{2588}\u{2588}\u{2588}");
}

#[test]
fn strength_labels_exact() {
    assert_eq!(strength_label(0), "Very weak");
    assert_eq!(strength_label(1), "Weak");
    assert_eq!(strength_label(2), "Fair");
    assert_eq!(strength_label(3), "Strong");
    assert_eq!(strength_label(4), "Very strong");
    assert_eq!(strength_label(9), "Unknown");
}

#[test]
fn report_carries_matching_bar_and_label() {
    let info = analyze_password("correct horse battery staple");
    assert_eq!(info.bar, strength_bar(info.score));
    assert_eq!(info.label, strength_label(info.score));
    assert!(!info.crack_time.is_empty());
}
