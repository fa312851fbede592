//! Passphrase assembly: a configured number of words drawn uniformly from a
//! word list, optionally capitalized, joined by a separator, and optionally
//! closed by one random decimal digit.

use crate::text::ascii_upper;
use crate::text::digit_char;
use crate::text::is_ascii_digit_char;
use crate::text::is_ascii_letter;
use crate::text::is_ascii_lower;
use crate::text::is_ascii_upper;
use crate::text::join_with;
use crate::text::push_char;
use crate::text::split_on;
use crate::text::to_ascii_upper;
use crate::text::lemma_join_push;
use crate::text::lemma_split_join;
use crate::text::lemma_split_push;
use crate::generator::random::random_index;
use vstd::prelude::*;

verus! {

/// A passphrase policy: how many words to draw, the separator between them,
/// whether each word's first letter is uppercased, and whether one random
/// digit is appended.
pub struct PassphraseOptions {
    pub words: usize,
    pub separator: String,
    pub capitalize: bool,
    pub append_digit: bool,
}

impl Default for PassphraseOptions {
    /// The default policy: four words joined by `-`, no capitalization, no
    /// trailing digit.
    fn default() -> (r: Self)
        ensures
            r.words == 4,
            r.separator@ == "-"@,
            !r.capitalize,
            !r.append_digit,
    {
        PassphraseOptions {
            words: 4,
            separator: String::from_str("-"),
            capitalize: false,
            append_digit: false,
        }
    }
}

/// `w` with its first character uppercased (ASCII only); the rest of the
/// word keeps its original case.
pub open spec fn cap_first(w: Seq<char>) -> Seq<char> {
    if w.len() == 0 {
        w
    } else {
        seq![ascii_upper(w[0])] + w.skip(1)
    }
}

/// Every index points into the word list.
pub open spec fn valid_indices(idxs: Seq<int>, n: int) -> bool {
    forall|k: int| 0 <= k < idxs.len() ==> 0 <= #[trigger] idxs[k] < n
}

/// The words of `wl` selected by `idxs`, in draw order, capitalized on
/// demand.
pub open spec fn words_selection(wl: Seq<Seq<char>>, idxs: Seq<int>, capitalize: bool) -> Seq<
    Seq<char>,
> {
    Seq::new(
        idxs.len(),
        |k: int|
            if capitalize {
                cap_first(wl[idxs[k]])
            } else {
                wl[idxs[k]]
            },
    )
}

/// What a passphrase generation returns: some sequence of `opts.words` valid
/// draws from the word list, selected, joined with the separator, and closed
/// by one decimal digit exactly when the policy appends one.
pub open spec fn passphrase_post(
    out: Seq<char>,
    wl: Seq<Seq<char>>,
    opts: PassphraseOptions,
) -> bool {
    exists|idxs: Seq<int>|
        {
            &&& #[trigger] idxs.len() == opts.words as int
            &&& valid_indices(idxs, wl.len() as int)
            &&& if opts.append_digit {
                exists|d: int|
                    0 <= d < 10 && out == join_with(
                        words_selection(wl, idxs, opts.capitalize),
                        opts.separator@,
                    ).push(digit_char(d))
            } else {
                out == join_with(words_selection(wl, idxs, opts.capitalize), opts.separator@)
            }
        }
}

/// A word selection joined by a single-character separator splits back into
/// exactly the selected words: as many non-empty segments as indices drawn,
/// provided every word in the list is non-empty and free of the separator
/// (and, under capitalization, starts with an ASCII letter while the
/// separator is no uppercase letter). Under capitalization every segment
/// starts with an ASCII uppercase letter.
pub proof fn lemma_passphrase_split(
    wl: Seq<Seq<char>>,
    idxs: Seq<int>,
    sep: char,
    capitalize: bool,
)
    requires
        idxs.len() >= 1,
        valid_indices(idxs, wl.len() as int),
        forall|i: int| 0 <= i < wl.len() ==> (#[trigger] wl[i]).len() > 0,
        forall|i: int| 0 <= i < wl.len() ==> !(#[trigger] wl[i]).contains(sep),
        capitalize ==> !is_ascii_upper(sep),
        capitalize ==> forall|i: int| 0 <= i < wl.len() ==> is_ascii_letter(#[trigger] wl[i][0]),
    ensures
        split_on(join_with(words_selection(wl, idxs, capitalize), seq![sep]), sep)
            == words_selection(wl, idxs, capitalize),
        split_on(join_with(words_selection(wl, idxs, capitalize), seq![sep]), sep).len()
            == idxs.len(),
        forall|k: int|
            0 <= k < idxs.len() ==> (#[trigger] words_selection(wl, idxs, capitalize)[k]).len() > 0,
        capitalize ==> forall|k: int|
            0 <= k < idxs.len() ==> is_ascii_upper(
                #[trigger] words_selection(wl, idxs, capitalize)[k][0],
            ),
{
    let sel = words_selection(wl, idxs, capitalize);
    assert forall|k: int| 0 <= k < sel.len() implies (#[trigger] sel[k]).len() > 0
        && !(sel[k].contains(sep)) by {
        let w = wl[idxs[k]];
        assert(w.len() > 0);
        assert(!w.contains(sep));
        if capitalize {
            assert(sel[k] == cap_first(w));
            assert(cap_first(w).len() == w.len());
            if cap_first(w).contains(sep) {
                let j = choose|j: int| 0 <= j < cap_first(w).len() && cap_first(w)[j] == sep;
                if j == 0 {
                    assert(ascii_upper(w[0]) == sep);
                    if is_ascii_lower(w[0]) {
                        assert(is_ascii_upper(sep));
                    } else {
                        assert(w[0] == sep);
                        assert(w.contains(sep));
                    }
                } else {
                    assert(cap_first(w)[j] == w[j]);
                    assert(w.contains(sep));
                }
            }
        } else {
            assert(sel[k] == w);
        }
    }
    lemma_split_join(sel, sep);
    if capitalize {
        assert forall|k: int| 0 <= k < idxs.len() implies is_ascii_upper(
            #[trigger] sel[k][0],
        ) by {
            let w = wl[idxs[k]];
            assert(sel[k] == cap_first(w));
            assert(sel[k][0] == ascii_upper(w[0]));
            assert(is_ascii_letter(w[0]));
        }
    }
}

/// A generated passphrase splits on its single-character separator into
/// exactly `opts.words` non-empty segments (a trailing digit, when the policy
/// appends one, lands in the last segment — for a separator that is no digit
/// itself); with capitalization on, every segment starts with an ASCII
/// uppercase letter. The word-list hypotheses are those of
/// [`lemma_passphrase_split`].
pub proof fn lemma_passphrase_segments(
    out: Seq<char>,
    wl: Seq<Seq<char>>,
    opts: PassphraseOptions,
    sep: char,
)
    requires
        passphrase_post(out, wl, opts),
        opts.words >= 1,
        opts.separator@ == seq![sep],
        opts.append_digit ==> !is_ascii_digit_char(sep),
        forall|i: int| 0 <= i < wl.len() ==> (#[trigger] wl[i]).len() > 0,
        forall|i: int| 0 <= i < wl.len() ==> !(#[trigger] wl[i]).contains(sep),
        opts.capitalize ==> !is_ascii_upper(sep),
        opts.capitalize ==> forall|i: int|
            0 <= i < wl.len() ==> is_ascii_letter(#[trigger] wl[i][0]),
    ensures
        split_on(out, sep).len() == opts.words as int,
        forall|k: int| 0 <= k < opts.words as int ==> (#[trigger] split_on(out, sep)[k]).len() > 0,
        opts.capitalize ==> forall|k: int|
            0 <= k < opts.words as int ==> is_ascii_upper(#[trigger] split_on(out, sep)[k][0]),
{
    if opts.append_digit {
        let idxs = choose|idxs: Seq<int>|
            {
                &&& #[trigger] idxs.len() == opts.words as int
                &&& valid_indices(idxs, wl.len() as int)
                &&& exists|d: int|
                    0 <= d < 10 && out == join_with(
                        words_selection(wl, idxs, opts.capitalize),
                        opts.separator@,
                    ).push(digit_char(d))
            };
        let joined = join_with(words_selection(wl, idxs, opts.capitalize), opts.separator@);
        let d = choose|d: int| 0 <= d < 10 && out == joined.push(digit_char(d));
        lemma_passphrase_split(wl, idxs, sep, opts.capitalize);
        assert(digit_char(d) != sep);
        lemma_split_push(joined, sep, digit_char(d));
        let before = split_on(joined, sep);
        let after = split_on(out, sep);
        assert(after.last() == before.last().push(digit_char(d)));
        assert forall|k: int| 0 <= k < opts.words as int implies (#[trigger] after[k]).len()
            > 0 by {
            if k < opts.words as int - 1 {
                assert(after[k] == before[k]);
            } else {
                assert(after[k] == after.last());
            }
        }
        if opts.capitalize {
            assert forall|k: int| 0 <= k < opts.words as int implies is_ascii_upper(
                #[trigger] after[k][0],
            ) by {
                if k < opts.words as int - 1 {
                    assert(after[k] == before[k]);
                } else {
                    assert(after[k] == before.last().push(digit_char(d)));
                    assert(before.last().len() > 0);
                    assert(after[k][0] == before.last()[0]);
                }
            }
        }
    } else {
        let idxs = choose|idxs: Seq<int>|
            {
                &&& #[trigger] idxs.len() == opts.words as int
                &&& valid_indices(idxs, wl.len() as int)
                &&& out == join_with(words_selection(wl, idxs, opts.capitalize), opts.separator@)
            };
        lemma_passphrase_split(wl, idxs, sep, opts.capitalize);
    }
}

/// Appends `w` to `out`, uppercasing its first character on demand.
fn append_word(out: &mut String, w: &String, capitalize: bool)
    ensures
        final(out)@ == old(out)@ + (if capitalize {
            cap_first(w@)
        } else {
            w@
        }),
{
    if !capitalize {
        out.append(w.as_str());
        return;
    }
    let s = w.as_str();
    let n = s.unicode_len();
    if n == 0 {
        proof {
            assert(old(out)@ + cap_first(w@) =~= old(out)@);
        }
        return;
    }
    push_char(out, to_ascii_upper(s.get_char(0)));
    let mut j: usize = 1;
    while j < n
        invariant
            1 <= j <= n,
            n == w@.len(),
            s@ == w@,
            out@ == old(out)@ + cap_first(w@).take(j as int),
        decreases n - j,
    {
        push_char(out, s.get_char(j));
        proof {
            assert(cap_first(w@)[j as int] == w@[j as int]);
            assert(cap_first(w@).take(j + 1) =~= cap_first(w@).take(j as int).push(
                cap_first(w@)[j as int],
            ));
            assert(out@ =~= old(out)@ + cap_first(w@).take(j + 1));
        }
        j = j + 1;
    }
    proof {
        assert(cap_first(w@).take(n as int) =~= cap_first(w@));
    }
}

/// Draws `opts.words` uniform indices into `wordlist` (with replacement),
/// joins the selected words with the separator, and appends one uniform
/// decimal digit when the policy asks for it.
pub fn generate_passphrase(opts: &PassphraseOptions, wordlist: &Vec<String>) -> (r: String)
    requires
        opts.words >= 1,
        wordlist@.len() > 0,
    ensures
        passphrase_post(r@, wordlist.deep_view(), *opts),
        opts.append_digit ==> r@.len() > 0 && is_ascii_digit_char(r@.last()),
{
    let ghost wl = wordlist.deep_view();
    let mut out = String::new();
    let ghost mut idxs: Seq<int> = Seq::empty();

    let first = random_index(wordlist.len());
    proof {
        idxs = idxs.push(first as int);
    }
    append_word(&mut out, &wordlist[first], opts.capitalize);
    proof {
        assert(words_selection(wl, idxs, opts.capitalize) =~= seq![
            if opts.capitalize {
                cap_first(wl[first as int])
            } else {
                wl[first as int]
            },
        ]);
        assert(out@ =~= join_with(words_selection(wl, idxs, opts.capitalize), opts.separator@));
    }

    let mut k: usize = 1;
    while k < opts.words
        invariant
            1 <= k <= opts.words,
            wordlist@.len() > 0,
            wl == wordlist.deep_view(),
            idxs.len() == k as int,
            valid_indices(idxs, wl.len() as int),
            out@ == join_with(words_selection(wl, idxs, opts.capitalize), opts.separator@),
        decreases opts.words - k,
    {
        out.append(opts.separator.as_str());
        let idx = random_index(wordlist.len());
        let ghost prev = idxs;
        proof {
            idxs = idxs.push(idx as int);
        }
        append_word(&mut out, &wordlist[idx], opts.capitalize);
        proof {
            let sel_prev = words_selection(wl, prev, opts.capitalize);
            let sel = words_selection(wl, idxs, opts.capitalize);
            let w = if opts.capitalize {
                cap_first(wl[idx as int])
            } else {
                wl[idx as int]
            };
            assert(sel =~= sel_prev.push(w));
            lemma_join_push(sel_prev, opts.separator@, w);
            assert(out@ =~= join_with(sel, opts.separator@));
        }
        k = k + 1;
    }

    if opts.append_digit {
        let d = random_index(10);
        let c = (48 + d as u8) as char;
        push_char(&mut out, c);
        proof {
            assert(c == digit_char(d as int));
            assert(exists|ws: Seq<int>|
                {
                    &&& #[trigger] ws.len() == opts.words as int
                    &&& valid_indices(ws, wl.len() as int)
                    &&& exists|dd: int|
                        0 <= dd < 10 && out@ == join_with(
                            words_selection(wl, ws, opts.capitalize),
                            opts.separator@,
                        ).push(digit_char(dd))
                }) by {
                assert(idxs.len() == opts.words as int);
                assert(0 <= (d as int) && (d as int) < 10 && out@ == join_with(
                    words_selection(wl, idxs, opts.capitalize),
                    opts.separator@,
                ).push(digit_char(d as int)));
            }
        }
    } else {
        proof {
            assert(exists|ws: Seq<int>|
                {
                    &&& #[trigger] ws.len() == opts.words as int
                    &&& valid_indices(ws, wl.len() as int)
                    &&& out@ == join_with(words_selection(wl, ws, opts.capitalize), opts.separator@)
                }) by {
                assert(idxs.len() == opts.words as int);
            }
        }
    }
    out
}

} // verus!
