//! Strength reporting for generated secrets. Entropy in bits is the base-two
//! logarithm of the number of equally likely outcomes a generation could have
//! produced; this module states the outcome counts and how they grow, and
//! wraps a pattern-aware estimator for scoring literal strings.

use crate::text::push_char;
use vstd::arithmetic::power::pow;
use vstd::arithmetic::power::lemma_pow_positive;
use vstd::arithmetic::power::lemma_pow_strictly_increases;
use vstd::prelude::*;

verus! {

/// How many equally likely strings a charset of `charset_size` characters can
/// produce at length `length`. The closed-form entropy estimate in bits is
/// the base-two logarithm of this count.
pub open spec fn password_outcomes(charset_size: nat, length: nat) -> int {
    pow(charset_size as int, length)
}

/// How many equally likely passphrases `word_count` draws from a list of
/// `wordlist_size` words can produce, times ten when one random digit is
/// appended. The closed-form entropy estimate in bits is the base-two
/// logarithm of this count.
pub open spec fn passphrase_outcomes(
    wordlist_size: nat,
    word_count: nat,
    append_digit: bool,
) -> int {
    pow(wordlist_size as int, word_count) * (if append_digit {
        10int
    } else {
        1int
    })
}

/// For a fixed charset of at least two characters, a longer output has
/// strictly more equally likely outcomes — so its closed-form entropy, the
/// base-two logarithm of the count, strictly increases with the length.
pub proof fn lemma_outcomes_increase_with_length(charset_size: nat, l1: nat, l2: nat)
    requires
        charset_size >= 2,
        l1 < l2,
    ensures
        password_outcomes(charset_size, l1) < password_outcomes(charset_size, l2),
{
    lemma_pow_strictly_increases(charset_size, l1, l2);
}

/// For a fixed positive length, a strictly larger charset has strictly more
/// equally likely outcomes — so its closed-form entropy strictly increases
/// with the charset size.
pub proof fn lemma_outcomes_increase_with_charset(c1: nat, c2: nat, length: nat)
    requires
        c1 < c2,
        length >= 1,
    ensures
        password_outcomes(c1, length) < password_outcomes(c2, length),
    decreases length,
{
    if length == 1 {
        reveal(pow);
        assert(pow(c1 as int, 1) == c1 as int * pow(c1 as int, 0));
        assert(pow(c2 as int, 1) == c2 as int * pow(c2 as int, 0));
    } else {
        reveal(pow);
        lemma_outcomes_increase_with_charset(c1, c2, (length - 1) as nat);
        lemma_pow_positive(c2 as int, (length - 1) as nat);
        let p1 = pow(c1 as int, (length - 1) as nat);
        let p2 = pow(c2 as int, (length - 1) as nat);
        if c1 == 0 {
            vstd::arithmetic::power::lemma0_pow((length - 1) as nat);
            assert(p1 == 0);
        } else {
            lemma_pow_positive(c1 as int, (length - 1) as nat);
        }
        assert(pow(c1 as int, length) == c1 as int * p1);
        assert(pow(c2 as int, length) == c2 as int * p2);
        assert(c1 as int * p1 < c2 as int * p2) by (nonlinear_arith)
            requires
                0 <= (c1 as int) && (c1 as int) < (c2 as int),
                p1 < p2,
                0 <= p1,
                0 < p2,
        ;
    }
}

/// Appending one random digit to a passphrase multiplies the outcome count by
/// ten — so it strictly raises the closed-form entropy of any passphrase
/// policy over a non-empty word list.
pub proof fn lemma_digit_suffix_increases_outcomes(wordlist_size: nat, word_count: nat)
    requires
        wordlist_size >= 1,
    ensures
        passphrase_outcomes(wordlist_size, word_count, false) < passphrase_outcomes(
            wordlist_size,
            word_count,
            true,
        ),
{
    lemma_pow_positive(wordlist_size as int, word_count);
}

/// For a fixed word list of at least two words, drawing more words gives
/// strictly more equally likely outcomes — so the closed-form entropy of a
/// passphrase strictly increases with the word count.
pub proof fn lemma_outcomes_increase_with_word_count(
    wordlist_size: nat,
    w1: nat,
    w2: nat,
    append_digit: bool,
)
    requires
        wordlist_size >= 2,
        w1 < w2,
    ensures
        passphrase_outcomes(wordlist_size, w1, append_digit) < passphrase_outcomes(
            wordlist_size,
            w2,
            append_digit,
        ),
{
    lemma_pow_strictly_increases(wordlist_size, w1, w2);
}

/// The five-segment strength bar for a score: `score + 1` filled blocks, then
/// light-shade blocks up to five in all.
pub open spec fn strength_bar_spec(score: u8) -> Seq<char> {
    Seq::new((score + 1) as nat, |i: int| '\u{2588}') + Seq::new(
        if score <= 4 {
            (4 - score) as nat
        } else {
            0 as nat
        },
        |i: int| '\u{2591}',
    )
}

/// The textual label for a strength class.
pub open spec fn strength_label_spec(score: u8) -> Seq<char> {
    if score == 0 {
        "Very weak"@
    } else if score == 1 {
        "Weak"@
    } else if score == 2 {
        "Fair"@
    } else if score == 3 {
        "Strong"@
    } else if score == 4 {
        "Very strong"@
    } else {
        "Unknown"@
    }
}

/// Renders the five-segment strength bar for `score`.
pub fn strength_bar(score: u8) -> (r: String)
    ensures
        r@ == strength_bar_spec(score),
{
    let filled: usize = score as usize + 1;
    let empty: usize = if score <= 4 {
        4 - score as usize
    } else {
        0
    };
    let mut out = String::new();
    let mut k: usize = 0;
    while k < filled
        invariant
            k <= filled,
            out@ =~= Seq::new(k as nat, |i: int| '\u{2588}'),
        decreases filled - k,
    {
        push_char(&mut out, '\u{2588}');
        k = k + 1;
    }
    let mut j: usize = 0;
    while j < empty
        invariant
            j <= empty,
            out@ =~= Seq::new(filled as nat, |i: int| '\u{2588}') + Seq::new(
                j as nat,
                |i: int| '\u{2591}',
            ),
        decreases empty - j,
    {
        push_char(&mut out, '\u{2591}');
        j = j + 1;
    }
    proof {
        assert(out@ =~= strength_bar_spec(score));
    }
    out
}

/// Renders the textual label for `score`.
pub fn strength_label(score: u8) -> (r: String)
    ensures
        r@ == strength_label_spec(score),
{
    if score == 0 {
        String::from_str("Very weak")
    } else if score == 1 {
        String::from_str("Weak")
    } else if score == 2 {
        String::from_str("Fair")
    } else if score == 3 {
        String::from_str("Strong")
    } else if score == 4 {
        String::from_str("Very strong")
    } else {
        String::from_str("Unknown")
    }
}

/// A pattern-aware strength report for one literal secret string: the
/// discrete strength class, its bar and label, and a human-readable estimate
/// of the offline crack time.
pub struct StrengthReport {
    pub score: u8,
    pub bar: String,
    pub label: String,
    pub crack_time: String,
}

/// Relies on `zxcvbn::zxcvbn`: the overall strength score (`Entropy::score`)
/// is one of the five classes, so at most 4 once converted to `u8`; the
/// second component renders `CrackTimes`' offline slow-hashing estimate,
/// whose `Display` writes text on every branch, so it is never empty. No
/// more is stated: the estimator's year and date matching reads the machine
/// clock, so its guess count — and with it the score and the rendered time —
/// is not a function of the password alone.
#[verifier::external_body]
fn zxcvbn_estimate(password: &str) -> (r: (u8, String))
    ensures
        r.0 <= 4,
        r.1@.len() > 0,
{
    let estimate = zxcvbn::zxcvbn(password, &[]);
    let score: u8 = estimate.score().into();
    let crack_time = format!("{}", estimate.crack_times().offline_slow_hashing_1e4_per_second());
    (score, crack_time)
}

/// Scores a literal secret string with the pattern-aware estimator and
/// renders the matching bar and label.
pub fn analyze_password(password: &str) -> (r: StrengthReport)
    ensures
        r.score <= 4,
        r.crack_time@.len() > 0,
        r.bar@ == strength_bar_spec(r.score),
        r.label@ == strength_label_spec(r.score),
{
    let (score, crack_time) = zxcvbn_estimate(password);
    let bar = strength_bar(score);
    let label = strength_label(score);
    StrengthReport { score, bar, label, crack_time }
}

} // verus!
