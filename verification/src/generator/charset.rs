//! Charset composition: an ordered pool of characters is assembled from
//! boolean category toggles and an optional custom symbol set, with an
//! optional pass that strikes out visually ambiguous characters.

use crate::text::is_hex_digit;
use crate::text::chars_vec;
use crate::text::push_chars;
use vstd::prelude::*;

verus! {

/// The uppercase letter category, in order.
pub open spec fn upper_chars() -> Seq<char> {
    "ABCDEFGHIJKLMNOPQRSTUVWXYZ"@
}

/// The lowercase letter category, in order.
pub open spec fn lower_chars() -> Seq<char> {
    "abcdefghijklmnopqrstuvwxyz"@
}

/// The decimal digit category, in order.
pub open spec fn digit_chars() -> Seq<char> {
    "0123456789"@
}

/// The default symbol category, used when no custom symbol set is given.
pub open spec fn default_symbol_chars() -> Seq<char> {
    "!@#$%^&*()-_=+[]{}|;:,.<>?/~`"@
}

/// The sixteen lowercase hexadecimal digits, in order.
pub open spec fn hex_chars() -> Seq<char> {
    "0123456789abcdef"@
}

/// A character that is easily confused with another on screen.
pub open spec fn is_ambiguous(c: char) -> bool {
    c == '0' || c == 'O' || c == '1' || c == 'l' || c == 'I' || c == '|'
}

/// The subsequence of `s` that keeps every non-ambiguous character, in order.
pub open spec fn remove_ambiguous(s: Seq<char>) -> Seq<char>
    decreases s.len(),
{
    if s.len() == 0 {
        Seq::empty()
    } else if is_ambiguous(s.last()) {
        remove_ambiguous(s.drop_last())
    } else {
        remove_ambiguous(s.drop_last()).push(s.last())
    }
}

/// A configuration record for charset composition: category toggles, the
/// ambiguity filter, an optional custom symbol set, and a hex-only override.
pub struct CharsetBuilder {
    pub uppercase: bool,
    pub lowercase: bool,
    pub digits: bool,
    pub symbols: bool,
    pub no_ambiguous: bool,
    pub custom_symbols: Option<String>,
    pub hex_only: bool,
}

/// The categories enabled by `p`, concatenated in the fixed order
/// uppercase, lowercase, digits, symbols; a custom symbol set stands in for
/// the default one when present. The ambiguity filter is not yet applied.
pub open spec fn base_chars(p: CharsetBuilder) -> Seq<char> {
    (if p.uppercase {
        upper_chars()
    } else {
        Seq::empty()
    }) + (if p.lowercase {
        lower_chars()
    } else {
        Seq::empty()
    }) + (if p.digits {
        digit_chars()
    } else {
        Seq::empty()
    }) + (if p.symbols {
        match p.custom_symbols {
            Option::Some(s) => s@,
            Option::None => default_symbol_chars(),
        }
    } else {
        Seq::empty()
    })
}

/// The charset that `p` describes: the hex digits when the hex-only override
/// is set, else the enabled categories with the ambiguity filter applied on
/// demand.
pub open spec fn charset_spec(p: CharsetBuilder) -> Seq<char> {
    if p.hex_only {
        hex_chars()
    } else if p.no_ambiguous {
        remove_ambiguous(base_chars(p))
    } else {
        base_chars(p)
    }
}

/// The one construction failure: every category disabled, or every character
/// struck out as ambiguous.
#[derive(Debug)]
pub struct EmptyCharsetError;

impl CharsetBuilder {
    /// The default policy: every category enabled, nothing filtered.
    pub fn new() -> (r: Self)
        ensures
            r == (CharsetBuilder {
                uppercase: true,
                lowercase: true,
                digits: true,
                symbols: true,
                no_ambiguous: false,
                custom_symbols: Option::<String>::None,
                hex_only: false,
            }),
    {
        CharsetBuilder {
            uppercase: true,
            lowercase: true,
            digits: true,
            symbols: true,
            no_ambiguous: false,
            custom_symbols: None,
            hex_only: false,
        }
    }

    pub fn uppercase(self, v: bool) -> (r: Self)
        ensures
            r == (CharsetBuilder { uppercase: v, ..self }),
    {
        CharsetBuilder { uppercase: v, ..self }
    }

    pub fn lowercase(self, v: bool) -> (r: Self)
        ensures
            r == (CharsetBuilder { lowercase: v, ..self }),
    {
        CharsetBuilder { lowercase: v, ..self }
    }

    pub fn digits(self, v: bool) -> (r: Self)
        ensures
            r == (CharsetBuilder { digits: v, ..self }),
    {
        CharsetBuilder { digits: v, ..self }
    }

    pub fn symbols(self, v: bool) -> (r: Self)
        ensures
            r == (CharsetBuilder { symbols: v, ..self }),
    {
        CharsetBuilder { symbols: v, ..self }
    }

    pub fn no_ambiguous(self, v: bool) -> (r: Self)
        ensures
            r == (CharsetBuilder { no_ambiguous: v, ..self }),
    {
        CharsetBuilder { no_ambiguous: v, ..self }
    }

    pub fn custom_symbols(self, s: Option<String>) -> (r: Self)
        ensures
            r == (CharsetBuilder { custom_symbols: s, ..self }),
    {
        CharsetBuilder { custom_symbols: s, ..self }
    }

    pub fn hex_only(self, v: bool) -> (r: Self)
        ensures
            r == (CharsetBuilder { hex_only: v, ..self }),
    {
        CharsetBuilder { hex_only: v, ..self }
    }

    /// Assembles the charset that this policy describes. Succeeds exactly
    /// when the described charset is non-empty; an empty result is a fatal
    /// configuration error, never a silent fallback.
    pub fn build(self) -> (r: Result<Vec<char>, EmptyCharsetError>)
        ensures
            match r {
                Result::Ok(v) => v@ == charset_spec(self) && v@.len() > 0,
                Result::Err(_) => charset_spec(self).len() == 0,
            },
    {
        if self.hex_only {
            let v = chars_vec("0123456789abcdef");
            proof {
                reveal_strlit("0123456789abcdef");
            }
            return Ok(v);
        }

        let mut chars = String::new();
        if self.uppercase {
            push_chars(&mut chars, "ABCDEFGHIJKLMNOPQRSTUVWXYZ");
        }
        if self.lowercase {
            push_chars(&mut chars, "abcdefghijklmnopqrstuvwxyz");
        }
        if self.digits {
            push_chars(&mut chars, "0123456789");
        }
        if self.symbols {
            match &self.custom_symbols {
                Some(custom) => push_chars(&mut chars, custom.as_str()),
                None => push_chars(&mut chars, "!@#$%^&*()-_=+[]{}|;:,.<>?/~`"),
            }
        }
        assert(chars@ =~= base_chars(self));

        let all = chars_vec(chars.as_str());
        let result = if self.no_ambiguous {
            filter_ambiguous(&all)
        } else {
            all
        };
        if result.len() == 0 {
            Err(EmptyCharsetError)
        } else {
            Ok(result)
        }
    }
}

/// Executable test for [`is_ambiguous`].
fn is_ambiguous_char(c: char) -> (r: bool)
    ensures
        r == is_ambiguous(c),
{
    c == '0' || c == 'O' || c == '1' || c == 'l' || c == 'I' || c == '|'
}

/// Keeps every non-ambiguous character of `v`, in order.
fn filter_ambiguous(v: &Vec<char>) -> (r: Vec<char>)
    ensures
        r@ == remove_ambiguous(v@),
{
    let mut out: Vec<char> = Vec::new();
    let mut j: usize = 0;
    while j < v.len()
        invariant
            j <= v@.len(),
            out@ == remove_ambiguous(v@.take(j as int)),
        decreases v@.len() - j,
    {
        proof {
            assert(v@.take(j + 1).drop_last() =~= v@.take(j as int));
            assert(v@.take(j + 1).last() == v@[j as int]);
        }
        if !is_ambiguous_char(v[j]) {
            out.push(v[j]);
        }
        j = j + 1;
    }
    proof {
        assert(v@.take(v@.len() as int) =~= v@);
    }
    out
}

/// Every character that the ambiguity filter keeps comes from the input and
/// is not ambiguous.
pub proof fn lemma_remove_ambiguous_members(s: Seq<char>)
    ensures
        forall|i: int|
            0 <= i < remove_ambiguous(s).len() ==> !is_ambiguous(remove_ambiguous(s)[i])
                && s.contains(remove_ambiguous(s)[i]),
    decreases s.len(),
{
    if s.len() > 0 {
        let dl = s.drop_last();
        lemma_remove_ambiguous_members(dl);
        assert forall|i: int|
            0 <= i < remove_ambiguous(s).len() implies !is_ambiguous(remove_ambiguous(s)[i])
            && s.contains(remove_ambiguous(s)[i]) by {
            let c = remove_ambiguous(s)[i];
            if i < remove_ambiguous(dl).len() {
                assert(!is_ambiguous(remove_ambiguous(dl)[i]) && dl.contains(
                    remove_ambiguous(dl)[i],
                ));
                let j = choose|j: int| 0 <= j < dl.len() && dl[j] == c;
                assert(s[j] == c);
                assert(s.contains(c));
            } else {
                assert(c == s.last());
                assert(s[s.len() - 1] == c);
                assert(s.contains(c));
            }
        }
    }
}

/// With the ambiguity filter on (and no hex-only override, which ignores the
/// filter), no ambiguous character stands in the built charset — so none can
/// appear in any output drawn from it.
pub proof fn lemma_no_ambiguous_charset(p: CharsetBuilder, c: char)
    requires
        p.no_ambiguous,
        !p.hex_only,
        charset_spec(p).contains(c),
    ensures
        !is_ambiguous(c),
{
    lemma_remove_ambiguous_members(base_chars(p));
    let i = choose|i: int| 0 <= i < charset_spec(p).len() && charset_spec(p)[i] == c;
    assert(!is_ambiguous(remove_ambiguous(base_chars(p))[i]));
}

/// The hex-only charset holds exactly sixteen entries, each one a lowercase
/// hexadecimal digit, whatever the other toggles say.
pub proof fn lemma_hex_only_charset(p: CharsetBuilder)
    requires
        p.hex_only,
    ensures
        charset_spec(p).len() == 16,
        forall|i: int| 0 <= i < 16 ==> is_hex_digit(#[trigger] charset_spec(p)[i]),
{
    reveal_strlit("0123456789abcdef");
}

/// A non-ambiguous character of the input survives the ambiguity filter.
pub proof fn lemma_remove_ambiguous_keeps(s: Seq<char>, c: char)
    requires
        s.contains(c),
        !is_ambiguous(c),
    ensures
        remove_ambiguous(s).contains(c),
    decreases s.len(),
{
    if s.last() == c {
        assert(remove_ambiguous(s).last() == c);
    } else {
        assert(s.drop_last().contains(c)) by {
            let i = choose|i: int| 0 <= i < s.len() && s[i] == c;
            assert(s.drop_last()[i] == c);
        }
        lemma_remove_ambiguous_keeps(s.drop_last(), c);
        assert(remove_ambiguous(s.drop_last()).contains(c));
        let j = choose|j: int|
            0 <= j < remove_ambiguous(s.drop_last()).len() && remove_ambiguous(s.drop_last())[j]
                == c;
        assert(remove_ambiguous(s)[j] == c);
    }
}

} // verus!
