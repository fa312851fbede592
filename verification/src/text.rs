//! Character and string helpers shared by the generators: appending to a
//! `String` under a view-level contract, character classes, and the
//! split/join theory used to reason about separator-joined output.

use vstd::prelude::*;
use vstd::std_specs::iter::IteratorSpec;

verus! {

/// Relies on `String::push`: appends the one character at the end.
#[verifier::external_body]
pub(crate) fn push_char(s: &mut String, c: char)
    ensures
        final(s)@ == old(s)@.push(c),
{
    s.push(c);
}

/// Appends every character of `tail` to `s`, in order.
pub(crate) fn push_chars(s: &mut String, tail: &str)
    ensures
        final(s)@ == old(s)@ + tail@,
{
    let n = tail.unicode_len();
    let mut j: usize = 0;
    while j < n
        invariant
            j <= n,
            n == tail@.len(),
            s@ == old(s)@ + tail@.take(j as int),
        decreases n - j,
    {
        push_char(s, tail.get_char(j));
        proof {
            assert(tail@.take(j + 1) =~= tail@.take(j as int).push(tail@[j as int]));
            assert(s@ =~= old(s)@ + tail@.take(j + 1));
        }
        j = j + 1;
    }
    proof {
        assert(tail@.take(n as int) =~= tail@);
    }
}

/// The characters of `s` as a vector, in order, in one pass.
pub fn chars_vec(s: &str) -> (v: Vec<char>)
    ensures
        v@ == s@,
{
    broadcast use vstd::string::group_string_axioms;

    let mut it = s.chars();
    let mut v: Vec<char> = Vec::new();
    loop
        invariant
            it.obeys_prophetic_iter_laws(),
            it.decrease() is Some,
            v@ + it.remaining() == s@,
        decreases it.decrease()->0,
    {
        let ghost before = it.remaining();
        match it.next() {
            Some(c) => {
                v.push(c);
                proof {
                    assert(v@ + it.remaining() =~= s@);
                }
            },
            None => {
                proof {
                    assert(v@ =~= s@);
                }
                return v;
            },
        }
    }
}

/// Character-for-character equality of two string slices.
pub fn str_eq(a: &str, b: &str) -> (r: bool)
    ensures
        r == (a@ == b@),
{
    let n = a.unicode_len();
    let m = b.unicode_len();
    if n != m {
        return false;
    }
    let mut j: usize = 0;
    while j < n
        invariant
            j <= n,
            n == a@.len(),
            n == b@.len(),
            forall|k: int| 0 <= k < j ==> a@[k] == b@[k],
        decreases n - j,
    {
        if a.get_char(j) != b.get_char(j) {
            return false;
        }
        j = j + 1;
    }
    proof {
        assert(a@ =~= b@);
    }
    true
}

pub open spec fn is_ascii_lower(c: char) -> bool {
    'a' <= c && c <= 'z'
}

pub open spec fn is_ascii_upper(c: char) -> bool {
    'A' <= c && c <= 'Z'
}

pub open spec fn is_ascii_letter(c: char) -> bool {
    is_ascii_lower(c) || is_ascii_upper(c)
}

pub open spec fn is_ascii_digit_char(c: char) -> bool {
    '0' <= c && c <= '9'
}

/// A lowercase hexadecimal digit.
pub open spec fn is_hex_digit(c: char) -> bool {
    ('0' <= c && c <= '9') || ('a' <= c && c <= 'f')
}

/// The decimal digit character for a value `d` in `0..10`.
pub open spec fn digit_char(d: int) -> char
    recommends
        0 <= d < 10,
{
    ((48 + d) as u8) as char
}

/// Uppercases an ASCII lowercase letter and leaves every other character as
/// it stands.
pub open spec fn ascii_upper(c: char) -> char {
    if is_ascii_lower(c) {
        (((c as u32) - 32) as u8) as char
    } else {
        c
    }
}

/// Executable form of [`ascii_upper`].
pub fn to_ascii_upper(c: char) -> (r: char)
    ensures
        r == ascii_upper(c),
{
    let u = c as u32;
    if 97 <= u && u <= 122 {
        ((u - 32) as u8) as char
    } else {
        c
    }
}

/// The index of the first occurrence of `c` in `s`, or `s.len()` when `c`
/// does not occur.
pub open spec fn find_char(s: Seq<char>, c: char) -> int
    decreases s.len(),
{
    if s.len() == 0 {
        0
    } else if s[0] == c {
        0
    } else {
        1 + find_char(s.drop_first(), c)
    }
}

/// `find_char` points at the first occurrence: nothing before it is `c`, and
/// it is `s.len()` exactly when `c` is absent.
pub proof fn lemma_find_char(s: Seq<char>, c: char)
    ensures
        0 <= find_char(s, c) <= s.len(),
        find_char(s, c) < s.len() ==> s[find_char(s, c)] == c,
        forall|j: int| 0 <= j < find_char(s, c) ==> s[j] != c,
        (find_char(s, c) == s.len()) <==> !s.contains(c),
    decreases s.len(),
{
    if s.len() == 0 {
        assert(!s.contains(c));
    } else if s[0] == c {
        assert(s.contains(c));
    } else {
        let df = s.drop_first();
        lemma_find_char(df, c);
        let i = find_char(s, c);
        assert(i == 1 + find_char(df, c));
        assert(forall|j: int| 0 <= j < i ==> s[j] != c) by {
            assert(forall|j: int| 1 <= j < i ==> s[j] == df[j - 1]);
        }
        if i < s.len() {
            assert(s[i] == df[i - 1]);
        }
        if s.contains(c) {
            let w = choose|w: int| 0 <= w < s.len() && s[w] == c;
            assert(df[w - 1] == c);
            assert(df.contains(c));
        }
        if df.contains(c) {
            let w = choose|w: int| 0 <= w < df.len() && df[w] == c;
            assert(s[w + 1] == c);
            assert(s.contains(c));
        }
    }
}

/// The segments of `s` between occurrences of the separator `c`: splitting
/// the empty sequence gives one empty segment, and every occurrence of `c`
/// ends a segment.
pub open spec fn split_on(s: Seq<char>, c: char) -> Seq<Seq<char>>
    decreases s.len(),
{
    let i = find_char(s, c);
    if 0 <= i < s.len() {
        seq![s.take(i)] + split_on(s.skip(i + 1), c)
    } else {
        seq![s]
    }
}

/// `parts`, interleaved with the separator sequence `sep`.
pub open spec fn join_with(parts: Seq<Seq<char>>, sep: Seq<char>) -> Seq<char>
    decreases parts.len(),
{
    if parts.len() == 0 {
        Seq::empty()
    } else if parts.len() == 1 {
        parts[0]
    } else {
        parts[0] + sep + join_with(parts.drop_first(), sep)
    }
}

/// Joining one more part appends a separator and that part.
pub proof fn lemma_join_push(parts: Seq<Seq<char>>, sep: Seq<char>, p: Seq<char>)
    requires
        parts.len() >= 1,
    ensures
        join_with(parts.push(p), sep) == join_with(parts, sep) + sep + p,
    decreases parts.len(),
{
    if parts.len() == 1 {
        assert(parts.push(p).drop_first() =~= seq![p]);
        assert(parts.push(p)[0] == parts[0]);
        assert(join_with(seq![p], sep) == p);
        assert(join_with(parts.push(p), sep) == parts[0] + sep + p);
        assert(join_with(parts, sep) + sep + p == parts[0] + sep + p);
    } else {
        lemma_join_push(parts.drop_first(), sep, p);
        assert(parts.push(p).drop_first() =~= parts.drop_first().push(p));
        assert(join_with(parts.push(p), sep) == parts[0] + sep + join_with(
            parts.drop_first().push(p),
            sep,
        ));
        assert(join_with(parts, sep) + sep + p =~= parts[0] + sep + (join_with(
            parts.drop_first(),
            sep,
        ) + sep + p));
    }
}

/// Appending a character other than `c` leaves the first occurrence of `c`
/// where it stood; absent one, the search runs one further.
proof fn lemma_find_char_push(s: Seq<char>, c: char, d: char)
    requires
        d != c,
    ensures
        find_char(s.push(d), c) == (if find_char(s, c) == s.len() {
            s.len() as int + 1
        } else {
            find_char(s, c)
        }),
    decreases s.len(),
{
    lemma_find_char(s, c);
    if s.len() == 0 {
        assert(s.push(d) =~= seq![d]);
        assert(seq![d][0] == d);
        assert(seq![d].drop_first() =~= Seq::<char>::empty());
        assert(find_char(s.push(d), c) == 1 + find_char(Seq::<char>::empty(), c));
    } else if s[0] == c {
        assert(s.push(d)[0] == c);
        assert(find_char(s.push(d), c) == 0);
    } else {
        let df = s.drop_first();
        assert(s.push(d)[0] == s[0]);
        assert(find_char(s, c) == 1 + find_char(df, c));
        assert(s.push(d).drop_first() =~= df.push(d));
        assert(find_char(s.push(d), c) == 1 + find_char(df.push(d), c));
        lemma_find_char_push(df, c, d);
        lemma_find_char(df, c);
    }
}

/// Appending one character other than the separator extends the last segment
/// by that character and changes nothing else about the split.
pub proof fn lemma_split_push(s: Seq<char>, c: char, d: char)
    requires
        d != c,
    ensures
        split_on(s.push(d), c).len() == split_on(s, c).len(),
        forall|k: int|
            0 <= k < split_on(s, c).len() - 1 ==> split_on(s.push(d), c)[k] == split_on(s, c)[k],
        split_on(s.push(d), c).last() == split_on(s, c).last().push(d),
    decreases s.len(),
{
    lemma_find_char(s, c);
    lemma_find_char_push(s, c, d);
    let i = find_char(s, c);
    if i == s.len() {
        assert(split_on(s, c) =~= seq![s]);
        assert(find_char(s.push(d), c) == s.push(d).len());
        assert(split_on(s.push(d), c) =~= seq![s.push(d)]);
    } else {
        let rest = s.skip(i + 1);
        lemma_split_push(rest, c, d);
        assert(s.push(d).take(i) =~= s.take(i));
        assert(s.push(d).skip(i + 1) =~= rest.push(d));
        let r1 = split_on(rest, c);
        let r2 = split_on(rest.push(d), c);
        assert(split_on(s, c) == seq![s.take(i)] + r1);
        assert(split_on(s.push(d), c) == seq![s.take(i)] + r2);
        assert(r1.len() >= 1 && r2.len() >= 1);
        assert(forall|k: int|
            0 <= k < split_on(s, c).len() - 1 ==> split_on(s.push(d), c)[k] == split_on(s, c)[k])
            by {
            assert(forall|k: int| 1 <= k < 1 + r1.len() ==> split_on(s, c)[k] == r1[k - 1]);
            assert(forall|k: int| 1 <= k < 1 + r2.len() ==> split_on(s.push(d), c)[k] == r2[k - 1]);
        }
        assert(split_on(s.push(d), c).last() == r2.last());
        assert(split_on(s, c).last() == r1.last());
    }
}

/// The first occurrence of `c` in `a + [c] + b` is at `a.len()` when `a` is
/// free of `c`.
proof fn lemma_find_char_concat(a: Seq<char>, b: Seq<char>, c: char)
    requires
        !a.contains(c),
    ensures
        find_char(a + seq![c] + b, c) == a.len(),
    decreases a.len(),
{
    let s = a + seq![c] + b;
    if a.len() == 0 {
        assert(s[0] == c);
    } else {
        assert(s[0] == a[0]);
        assert(a[0] != c);
        assert(s[0] != c);
        let dfa = a.drop_first();
        assert(!dfa.contains(c)) by {
            if dfa.contains(c) {
                let w = choose|w: int| 0 <= w < dfa.len() && dfa[w] == c;
                assert(a[w + 1] == c);
            }
        }
        lemma_find_char_concat(dfa, b, c);
        assert(s.drop_first() =~= dfa + seq![c] + b);
    }
}

/// Splitting a separator-joined sequence of non-empty, separator-free parts
/// gives the parts back.
pub proof fn lemma_split_join(parts: Seq<Seq<char>>, c: char)
    requires
        parts.len() >= 1,
        forall|i: int| 0 <= i < parts.len() ==> !(#[trigger] parts[i]).contains(c),
    ensures
        split_on(join_with(parts, seq![c]), c) == parts,
    decreases parts.len(),
{
    let s = join_with(parts, seq![c]);
    if parts.len() == 1 {
        assert(s == parts[0]);
        lemma_find_char(s, c);
        assert(find_char(s, c) == s.len());
        assert(split_on(s, c) =~= parts);
    } else {
        let rest = parts.drop_first();
        let tail = join_with(rest, seq![c]);
        assert(s == parts[0] + seq![c] + tail);
        lemma_find_char_concat(parts[0], tail, c);
        let i = find_char(s, c);
        assert(i == parts[0].len());
        assert(s.take(i) =~= parts[0]);
        assert(s.skip(i + 1) =~= tail);
        assert(forall|j: int| 0 <= j < rest.len() ==> !(#[trigger] rest[j]).contains(c));
        lemma_split_join(rest, c);
        assert(split_on(s, c) =~= seq![parts[0]] + split_on(tail, c));
        assert(seq![parts[0]] + rest =~= parts);
    }
}

} // verus!
