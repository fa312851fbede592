//! The built-in word list: 7776 distinct pronounceable words, one for each
//! five-digit base-six index, in index order. Each word is five two-letter
//! syllables, so the list is fixed, ordered, and free of separators.

use crate::generator::passphrase::PassphraseOptions;
use crate::generator::passphrase::lemma_passphrase_segments;
use crate::generator::passphrase::passphrase_post;
use crate::text::chars_vec;
use crate::text::find_char;
use crate::text::is_ascii_lower;
use crate::text::is_ascii_upper;
use crate::text::lemma_find_char;
use crate::text::push_char;
use crate::text::split_on;
use vstd::prelude::*;

verus! {

/// The two-letter syllable for one base-six digit.
pub open spec fn syllable(d: int) -> Seq<char> {
    if d == 0 {
        "ba"@
    } else if d == 1 {
        "de"@
    } else if d == 2 {
        "ki"@
    } else if d == 3 {
        "lo"@
    } else if d == 4 {
        "mu"@
    } else {
        "ta"@
    }
}

/// The word at index `i`: the syllables of the five base-six digits of `i`,
/// highest digit first.
pub open spec fn spec_word(i: int) -> Seq<char> {
    syllable(i / 1296 % 6) + syllable(i / 216 % 6) + syllable(i / 36 % 6) + syllable(i / 6 % 6)
        + syllable(i % 6)
}

/// Executable form of [`syllable`].
fn syllable_str(d: usize) -> (r: &'static str)
    requires
        d < 6,
    ensures
        r@ == syllable(d as int),
{
    if d == 0 {
        "ba"
    } else if d == 1 {
        "de"
    } else if d == 2 {
        "ki"
    } else if d == 3 {
        "lo"
    } else if d == 4 {
        "mu"
    } else {
        "ta"
    }
}

/// The number of words in the built-in list.
pub const WORDLIST_SIZE: usize = 7776;

/// Builds the full word list, in index order.
pub fn get_wordlist() -> (r: Vec<String>)
    ensures
        r@.len() == WORDLIST_SIZE as int,
        forall|i: int| 0 <= i < r@.len() ==> (#[trigger] r@[i])@ == spec_word(i),
{
    let mut words: Vec<String> = Vec::new();
    let mut i: usize = 0;
    while i < WORDLIST_SIZE
        invariant
            i <= WORDLIST_SIZE,
            words@.len() == i as int,
            forall|j: int| 0 <= j < i as int ==> (#[trigger] words@[j])@ == spec_word(j),
        decreases WORDLIST_SIZE - i,
    {
        let mut w = String::new();
        w.append(syllable_str((i / 1296) % 6));
        w.append(syllable_str((i / 216) % 6));
        w.append(syllable_str((i / 36) % 6));
        w.append(syllable_str((i / 6) % 6));
        w.append(syllable_str(i % 6));
        proof {
            assert(w@ =~= spec_word(i as int));
        }
        words.push(w);
        i = i + 1;
    }
    words
}

/// `line` with one trailing carriage return removed, for resource files with
/// Windows line ends.
pub open spec fn strip_cr(line: Seq<char>) -> Seq<char> {
    if line.len() > 0 && line.last() == '\r' {
        line.drop_last()
    } else {
        line
    }
}

/// The word field of one line of a word-list resource: the text between the
/// line's first tab and its second tab or end. A line without a tab, or with
/// an empty word field, carries no word.
pub open spec fn line_word(line: Seq<char>) -> Option<Seq<char>> {
    let body = strip_cr(line);
    let t = find_char(body, '\t');
    if t == body.len() {
        Option::<Seq<char>>::None
    } else {
        let rest = body.skip(t + 1);
        let w = rest.take(find_char(rest, '\t'));
        if w.len() == 0 {
            Option::<Seq<char>>::None
        } else {
            Option::Some(w)
        }
    }
}

/// The words of a resource text, line by line, keeping only the word fields.
pub open spec fn parsed_words(lines: Seq<Seq<char>>) -> Seq<Seq<char>>
    decreases lines.len(),
{
    if lines.len() == 0 {
        Seq::empty()
    } else {
        parsed_words(lines.drop_last()) + match line_word(lines.last()) {
            Option::Some(w) => seq![w],
            Option::None => Seq::<Seq<char>>::empty(),
        }
    }
}

/// The word field of the line `chars[start..end]`, as [`line_word`] gives it.
fn extract_word(chars: &Vec<char>, start: usize, end: usize) -> (r: Option<String>)
    requires
        start <= end <= chars@.len(),
    ensures
        match r {
            Option::Some(w) => line_word(chars@.subrange(start as int, end as int))
                == Option::Some(w@),
            Option::None => line_word(chars@.subrange(start as int, end as int)) is None,
        },
{
    let ghost line = chars@.subrange(start as int, end as int);
    let e: usize = if end > start && chars[end - 1] == '\r' {
        end - 1
    } else {
        end
    };
    let ghost body = strip_cr(line);
    proof {
        assert(body =~= chars@.subrange(start as int, e as int));
        lemma_find_char(body, '\t');
    }
    let mut t: usize = start;
    while t < e && chars[t] != '\t'
        invariant
            start <= t <= e,
            e <= chars@.len(),
            forall|k: int| start <= k < t ==> chars@[k] != '\t',
        decreases e - t,
    {
        t = t + 1;
    }
    proof {
        assert(forall|k: int| 0 <= k < t - start ==> body[k] == chars@[start + k]);
        if t < e {
            assert(body[t - start] == chars@[t as int]);
            assert(find_char(body, '\t') == t - start);
        } else {
            assert(find_char(body, '\t') == body.len());
        }
    }
    if t == e {
        return None;
    }
    let ghost rest = body.skip(t - start + 1);
    proof {
        assert(rest =~= chars@.subrange(t + 1, e as int));
        lemma_find_char(rest, '\t');
    }
    let mut u: usize = t + 1;
    while u < e && chars[u] != '\t'
        invariant
            t < u <= e,
            e <= chars@.len(),
            forall|k: int| t < k < u ==> chars@[k] != '\t',
        decreases e - u,
    {
        u = u + 1;
    }
    proof {
        assert(forall|k: int| 0 <= k < u - t - 1 ==> rest[k] == chars@[t + 1 + k]);
        if u < e {
            assert(rest[u - t - 1] == chars@[u as int]);
            assert(find_char(rest, '\t') == u - t - 1);
        } else {
            assert(find_char(rest, '\t') == rest.len());
        }
        assert(rest.take(find_char(rest, '\t')) =~= chars@.subrange(t + 1, u as int));
    }
    if u == t + 1 {
        return None;
    }
    let mut w = String::new();
    let mut k: usize = t + 1;
    while k < u
        invariant
            t + 1 <= k <= u,
            u <= chars@.len(),
            w@ == chars@.subrange(t + 1, k as int),
        decreases u - k,
    {
        push_char(&mut w, chars[k]);
        proof {
            assert(chars@.subrange(t + 1, k + 1) =~= chars@.subrange(t + 1, k as int).push(
                chars@[k as int],
            ));
        }
        k = k + 1;
    }
    Some(w)
}

/// Reads a word-list resource: plain text, one entry per line, a tab-separated
/// numeric index and word on each — only the word field is consumed, and
/// lines without one are skipped.
pub fn parse_wordlist(raw: &str) -> (r: Vec<String>)
    ensures
        r.deep_view() == parsed_words(split_on(raw@, '\n')),
{
    let chars = chars_vec(raw);
    let n = chars.len();
    let mut words: Vec<String> = Vec::new();
    let ghost mut done: Seq<Seq<char>> = Seq::empty();
    let mut start: usize = 0;
    proof {
        assert(raw@.skip(0) =~= raw@);
        assert(done + split_on(raw@, '\n') =~= split_on(raw@, '\n'));
    }
    loop
        invariant
            start <= n,
            n == chars@.len(),
            chars@ == raw@,
            split_on(raw@, '\n') == done + split_on(raw@.skip(start as int), '\n'),
            words.deep_view() == parsed_words(done),
        decreases n - start,
    {
        let ghost tail = raw@.skip(start as int);
        proof {
            lemma_find_char(tail, '\n');
        }
        let mut j: usize = start;
        while j < n && chars[j] != '\n'
            invariant
                start <= j <= n,
                n == chars@.len(),
                forall|k: int| start <= k < j ==> chars@[k] != '\n',
            decreases n - j,
        {
            j = j + 1;
        }
        let ghost line = raw@.subrange(start as int, j as int);
        proof {
            assert(forall|k: int| 0 <= k < j - start ==> tail[k] == chars@[start + k]);
            if j < n {
                assert(tail[j - start] == chars@[j as int]);
                assert(find_char(tail, '\n') == j - start);
            } else {
                assert(find_char(tail, '\n') == tail.len());
            }
            assert(tail.take(j - start) =~= line);
        }
        let word = extract_word(&chars, start, j);
        proof {
            let done2 = done.push(line);
            assert(done2.drop_last() =~= done);
            assert(parsed_words(done2) == parsed_words(done) + match line_word(line) {
                Option::Some(w) => seq![w],
                Option::None => Seq::<Seq<char>>::empty(),
            });
        }
        match word {
            Some(w) => {
                words.push(w);
                proof {
                    done = done.push(line);
                    assert(words.deep_view() =~= parsed_words(done));
                }
            },
            None => {
                proof {
                    done = done.push(line);
                    assert(words.deep_view() =~= parsed_words(done));
                }
            },
        }
        if j == n {
            proof {
                assert(split_on(tail, '\n') =~= seq![line]) by {
                    assert(tail =~= line);
                }
                assert(done.drop_last() + seq![line] =~= done);
                assert(split_on(raw@, '\n') =~= done);
            }
            return words;
        }
        proof {
            assert(split_on(tail, '\n') == seq![tail.take(j - start)] + split_on(
                tail.skip(j - start + 1),
                '\n',
            ));
            assert(tail.skip(j - start + 1) =~= raw@.skip(j + 1));
            assert(done.drop_last() + (seq![line] + split_on(raw@.skip(j + 1), '\n')) =~= done
                + split_on(raw@.skip(j + 1), '\n'));
        }
        start = j + 1;
    }
}

/// Both characters of every syllable are lowercase ASCII letters.
proof fn lemma_syllable_chars(d: int)
    ensures
        syllable(d).len() == 2,
        is_ascii_lower(syllable(d)[0]),
        is_ascii_lower(syllable(d)[1]),
{
    reveal_strlit("ba");
    reveal_strlit("de");
    reveal_strlit("ki");
    reveal_strlit("lo");
    reveal_strlit("mu");
    reveal_strlit("ta");
}

/// Every word of the built-in list is ten lowercase ASCII letters: non-empty,
/// starting with a letter, and containing no character outside `a..z` (in
/// particular no separator such as `-`).
pub proof fn lemma_word_shape(i: int)
    ensures
        spec_word(i).len() == 10,
        forall|j: int| 0 <= j < 10 ==> is_ascii_lower(#[trigger] spec_word(i)[j]),
        forall|c: char| spec_word(i).contains(c) ==> is_ascii_lower(c),
{
    lemma_syllable_chars(i / 1296 % 6);
    lemma_syllable_chars(i / 216 % 6);
    lemma_syllable_chars(i / 36 % 6);
    lemma_syllable_chars(i / 6 % 6);
    lemma_syllable_chars(i % 6);
    assert forall|j: int| 0 <= j < 10 implies is_ascii_lower(#[trigger] spec_word(i)[j]) by {
        assert(spec_word(i)[j] == if j < 2 {
            syllable(i / 1296 % 6)[j]
        } else if j < 4 {
            syllable(i / 216 % 6)[j - 2]
        } else if j < 6 {
            syllable(i / 36 % 6)[j - 4]
        } else if j < 8 {
            syllable(i / 6 % 6)[j - 6]
        } else {
            syllable(i % 6)[j - 8]
        });
    }
    assert forall|c: char| spec_word(i).contains(c) implies is_ascii_lower(c) by {
        let j = choose|j: int| 0 <= j < spec_word(i).len() && spec_word(i)[j] == c;
        assert(is_ascii_lower(spec_word(i)[j]));
    }
}

/// Two distinct base-six digits give syllables with distinct first letters.
proof fn lemma_syllable_injective(a: int, b: int)
    requires
        0 <= a < 6,
        0 <= b < 6,
        syllable(a)[0] == syllable(b)[0],
    ensures
        a == b,
{
    reveal_strlit("ba");
    reveal_strlit("de");
    reveal_strlit("ki");
    reveal_strlit("lo");
    reveal_strlit("mu");
    reveal_strlit("ta");
}

/// The five base-six digits determine the index below 7776.
proof fn lemma_digits_reconstruct(i: int)
    requires
        0 <= i < 7776,
    ensures
        i == (i / 1296 % 6) * 1296 + (i / 216 % 6) * 216 + (i / 36 % 6) * 36 + (i / 6 % 6) * 6 + i
            % 6,
{
    assert(i == (i / 1296 % 6) * 1296 + (i / 216 % 6) * 216 + (i / 36 % 6) * 36 + (i / 6 % 6) * 6
        + i % 6) by (nonlinear_arith)
        requires
            0 <= i < 7776,
    ;
}

/// Over the built-in word list, a passphrase joined by `-` splits back into
/// exactly `opts.words` non-empty segments (a trailing digit, when the policy
/// appends one, lands in the last segment); with capitalization on, every
/// segment starts with an ASCII uppercase letter.
pub proof fn lemma_builtin_passphrase_segments(
    out: Seq<char>,
    wl: Seq<Seq<char>>,
    opts: PassphraseOptions,
)
    requires
        passphrase_post(out, wl, opts),
        opts.words >= 1,
        opts.separator@ == "-"@,
        forall|i: int| 0 <= i < wl.len() ==> #[trigger] wl[i] == spec_word(i),
    ensures
        split_on(out, '-').len() == opts.words as int,
        forall|k: int| 0 <= k < opts.words as int ==> (#[trigger] split_on(out, '-')[k]).len() > 0,
        opts.capitalize ==> forall|k: int|
            0 <= k < opts.words as int ==> is_ascii_upper(#[trigger] split_on(out, '-')[k][0]),
{
    reveal_strlit("-");
    assert(opts.separator@ =~= seq!['-']);
    assert(!crate::text::is_ascii_digit_char('-'));
    assert forall|i: int| 0 <= i < wl.len() implies (#[trigger] wl[i]).len() > 0 && !wl[i].contains(
        '-',
    ) && crate::text::is_ascii_letter(wl[i][0]) by {
        lemma_word_shape(i);
        assert(wl[i] == spec_word(i));
        if wl[i].contains('-') {
            assert(is_ascii_lower('-'));
        }
        assert(is_ascii_lower(wl[i][0]));
    }
    assert(!is_ascii_upper('-'));
    lemma_passphrase_segments(out, wl, opts, '-');
}

/// The entries of the built-in list are pairwise distinct.
pub proof fn lemma_words_distinct(i: int, j: int)
    requires
        0 <= i < 7776,
        0 <= j < 7776,
        i != j,
    ensures
        spec_word(i) != spec_word(j),
{
    if spec_word(i) == spec_word(j) {
        lemma_syllable_chars(i / 1296 % 6);
        lemma_syllable_chars(i / 216 % 6);
        lemma_syllable_chars(i / 36 % 6);
        lemma_syllable_chars(i / 6 % 6);
        lemma_syllable_chars(i % 6);
        lemma_syllable_chars(j / 1296 % 6);
        lemma_syllable_chars(j / 216 % 6);
        lemma_syllable_chars(j / 36 % 6);
        lemma_syllable_chars(j / 6 % 6);
        lemma_syllable_chars(j % 6);
        assert(spec_word(i)[0] == syllable(i / 1296 % 6)[0]);
        assert(spec_word(i)[2] == syllable(i / 216 % 6)[0]);
        assert(spec_word(i)[4] == syllable(i / 36 % 6)[0]);
        assert(spec_word(i)[6] == syllable(i / 6 % 6)[0]);
        assert(spec_word(i)[8] == syllable(i % 6)[0]);
        assert(spec_word(j)[0] == syllable(j / 1296 % 6)[0]);
        assert(spec_word(j)[2] == syllable(j / 216 % 6)[0]);
        assert(spec_word(j)[4] == syllable(j / 36 % 6)[0]);
        assert(spec_word(j)[6] == syllable(j / 6 % 6)[0]);
        assert(spec_word(j)[8] == syllable(j % 6)[0]);
        lemma_syllable_injective(i / 1296 % 6, j / 1296 % 6);
        lemma_syllable_injective(i / 216 % 6, j / 216 % 6);
        lemma_syllable_injective(i / 36 % 6, j / 36 % 6);
        lemma_syllable_injective(i / 6 % 6, j / 6 % 6);
        lemma_syllable_injective(i % 6, j % 6);
        lemma_digits_reconstruct(i);
        lemma_digits_reconstruct(j);
    }
}

} // verus!
