//! The profile catalog: a fixed, ordered list of named generation policies,
//! each dispatching to one of the three generation kinds — a charset policy
//! with a fixed length, a passphrase policy, or a UUID.

use crate::generator::charset::CharsetBuilder;
use crate::generator::charset::base_chars;
use crate::generator::charset::charset_spec;
use crate::generator::charset::digit_chars;
use crate::generator::charset::hex_chars;
use crate::generator::charset::is_ambiguous;
use crate::generator::charset::lemma_remove_ambiguous_keeps;
use crate::generator::charset::lower_chars;
use crate::generator::passphrase::PassphraseOptions;
use crate::generator::passphrase::generate_passphrase;
use crate::generator::passphrase::passphrase_post;
use crate::generator::random::generate_password;
use crate::generator::random::generate_uuid;
use crate::generator::random::is_uuid_string;
use crate::text::is_ascii_digit_char;
use crate::text::is_hex_digit;
use crate::text::str_eq;
use vstd::pervasive::unreached;
use vstd::prelude::*;

verus! {

/// One of the three ways a profile generates its secret.
pub enum ProfileKind {
    Charset { length: usize, policy: CharsetBuilder },
    Passphrase { options: PassphraseOptions },
    Uuid,
}

/// A named, pre-configured generation policy.
pub struct Profile {
    pub name: &'static str,
    pub description: &'static str,
    pub kind: ProfileKind,
}

/// A profile is well-formed when its generation cannot fail: a charset
/// profile describes a non-empty charset, and a passphrase profile draws at
/// least one word.
pub open spec fn profile_wf(p: Profile) -> bool {
    match p.kind {
        ProfileKind::Charset { length, policy } => charset_spec(policy).len() > 0,
        ProfileKind::Passphrase { options } => options.words >= 1,
        ProfileKind::Uuid => true,
    }
}

/// The charset policy with only the digit category enabled.
pub open spec fn digits_only_policy() -> CharsetBuilder {
    CharsetBuilder {
        uppercase: false,
        lowercase: false,
        digits: true,
        symbols: false,
        no_ambiguous: false,
        custom_symbols: Option::<String>::None,
        hex_only: false,
    }
}

/// The default charset policy: every category enabled.
pub open spec fn all_categories_policy() -> CharsetBuilder {
    CharsetBuilder {
        uppercase: true,
        lowercase: true,
        digits: true,
        symbols: true,
        no_ambiguous: false,
        custom_symbols: Option::<String>::None,
        hex_only: false,
    }
}

/// Every category enabled, ambiguous characters struck out.
pub open spec fn no_ambiguous_policy() -> CharsetBuilder {
    CharsetBuilder {
        uppercase: true,
        lowercase: true,
        digits: true,
        symbols: true,
        no_ambiguous: true,
        custom_symbols: Option::<String>::None,
        hex_only: false,
    }
}

/// Letters only: the uppercase and lowercase categories.
pub open spec fn letters_only_policy() -> CharsetBuilder {
    CharsetBuilder {
        uppercase: true,
        lowercase: true,
        digits: false,
        symbols: false,
        no_ambiguous: false,
        custom_symbols: Option::<String>::None,
        hex_only: false,
    }
}

/// The hex-only override.
pub open spec fn hex_only_policy() -> CharsetBuilder {
    CharsetBuilder {
        uppercase: true,
        lowercase: true,
        digits: true,
        symbols: true,
        no_ambiguous: false,
        custom_symbols: Option::<String>::None,
        hex_only: true,
    }
}

/// The catalog's profile names, in catalog order.
pub open spec fn catalog_names() -> Seq<Seq<char>> {
    seq!["pin"@, "pin6"@, "wifi"@, "strong"@, "alpha"@, "hex"@, "memorable"@, "uuid"@]
}

/// `p` is one of the eight catalog entries, name, description and kind all
/// pinned down.
pub open spec fn is_catalog_profile(p: Profile) -> bool {
    ||| (p.name@ == "pin"@ && p.description@ == "4-digit PIN"@ && p.kind == (ProfileKind::Charset {
        length: 4usize,
        policy: digits_only_policy(),
    }))
    ||| (p.name@ == "pin6"@ && p.description@ == "6-digit PIN"@ && p.kind
        == (ProfileKind::Charset { length: 6usize, policy: digits_only_policy() }))
    ||| (p.name@ == "wifi"@ && p.description@ == "63 chars, all sets, no ambiguous"@ && p.kind
        == (ProfileKind::Charset { length: 63usize, policy: no_ambiguous_policy() }))
    ||| (p.name@ == "strong"@ && p.description@ == "32 chars, all character sets"@ && p.kind
        == (ProfileKind::Charset { length: 32usize, policy: all_categories_policy() }))
    ||| (p.name@ == "alpha"@ && p.description@ == "16 chars, letters only"@ && p.kind
        == (ProfileKind::Charset { length: 16usize, policy: letters_only_policy() }))
    ||| (p.name@ == "hex"@ && p.description@ == "32 hex chars"@ && p.kind == (ProfileKind::Charset {
        length: 32usize,
        policy: hex_only_policy(),
    }))
    ||| (p.name@ == "memorable"@ && p.description@ == "Passphrase with 4 words"@ && (p.kind matches
    ProfileKind::Passphrase { options } && options.words == 4 && options.separator@ == "-"@
        && !options.capitalize && !options.append_digit))
    ||| (p.name@ == "uuid"@ && p.description@ == "UUID v4 format"@ && p.kind == ProfileKind::Uuid)
}

/// The digits-only charset is the ten decimal digits.
proof fn lemma_digits_only_charset()
    ensures
        charset_spec(digits_only_policy()) == digit_chars(),
        charset_spec(digits_only_policy()).len() == 10,
{
    reveal_strlit("0123456789");
    assert(charset_spec(digits_only_policy()) =~= digit_chars());
}

/// The catalog's charset policies all describe non-empty charsets.
proof fn lemma_catalog_charsets_nonempty()
    ensures
        charset_spec(digits_only_policy()).len() > 0,
        charset_spec(all_categories_policy()).len() > 0,
        charset_spec(no_ambiguous_policy()).len() > 0,
        charset_spec(letters_only_policy()).len() > 0,
        charset_spec(hex_only_policy()).len() > 0,
{
    reveal_strlit("ABCDEFGHIJKLMNOPQRSTUVWXYZ");
    reveal_strlit("abcdefghijklmnopqrstuvwxyz");
    reveal_strlit("0123456789");
    reveal_strlit("0123456789abcdef");
    lemma_digits_only_charset();
    assert(charset_spec(letters_only_policy()).len() == 52);
    assert(charset_spec(all_categories_policy()).len() >= 52);
    assert(charset_spec(hex_only_policy()) == hex_chars());
    let base = base_chars(no_ambiguous_policy());
    assert(base[26] == lower_chars()[0]);
    assert(base[26] == 'a');
    assert(base.contains('a'));
    assert(!is_ambiguous('a'));
    lemma_remove_ambiguous_keeps(base, 'a');
    assert(charset_spec(no_ambiguous_policy()).contains('a'));
}

impl Profile {
    /// Generates one secret as this profile directs: a password of the fixed
    /// length over the profile's charset, a passphrase drawn from `wordlist`
    /// under the profile's policy, or a UUID.
    pub fn generate(&self, wordlist: &Vec<String>) -> (r: String)
        requires
            profile_wf(*self),
            wordlist@.len() > 0,
        ensures
            match self.kind {
                ProfileKind::Charset { length, policy } => r@.len() == length && forall|i: int|
                    0 <= i < r@.len() ==> charset_spec(policy).contains(#[trigger] r@[i]),
                ProfileKind::Passphrase { options } => passphrase_post(
                    r@,
                    wordlist.deep_view(),
                    options,
                ),
                ProfileKind::Uuid => is_uuid_string(r@),
            },
    {
        match &self.kind {
            ProfileKind::Charset { length, policy } => {
                let again = CharsetBuilder {
                    uppercase: policy.uppercase,
                    lowercase: policy.lowercase,
                    digits: policy.digits,
                    symbols: policy.symbols,
                    no_ambiguous: policy.no_ambiguous,
                    custom_symbols: match &policy.custom_symbols {
                        Some(s) => Some(s.clone()),
                        None => None,
                    },
                    hex_only: policy.hex_only,
                };
                assert(again == *policy);
                match again.build() {
                    Ok(charset) => generate_password(charset.as_slice(), *length),
                    Err(_) => unreached(),
                }
            },
            ProfileKind::Passphrase { options } => generate_passphrase(options, wordlist),
            ProfileKind::Uuid => generate_uuid(),
        }
    }
}

/// The fixed catalog, in order: the eight built-in profiles, every one
/// well-formed.
pub fn get_profiles() -> (r: Vec<Profile>)
    ensures
        r@.len() == catalog_names().len(),
        forall|i: int|
            0 <= i < r@.len() ==> is_catalog_profile(#[trigger] r@[i]) && profile_wf(r@[i]),
        forall|i: int| 0 <= i < r@.len() ==> (#[trigger] r@[i]).name@ == catalog_names()[i],
{
    proof {
        lemma_catalog_charsets_nonempty();
    }
    let mut v: Vec<Profile> = Vec::new();
    v.push(
        Profile {
            name: "pin",
            description: "4-digit PIN",
            kind: ProfileKind::Charset {
                length: 4,
                policy: CharsetBuilder::new().uppercase(false).lowercase(false).symbols(false),
            },
        },
    );
    v.push(
        Profile {
            name: "pin6",
            description: "6-digit PIN",
            kind: ProfileKind::Charset {
                length: 6,
                policy: CharsetBuilder::new().uppercase(false).lowercase(false).symbols(false),
            },
        },
    );
    v.push(
        Profile {
            name: "wifi",
            description: "63 chars, all sets, no ambiguous",
            kind: ProfileKind::Charset {
                length: 63,
                policy: CharsetBuilder::new().no_ambiguous(true),
            },
        },
    );
    v.push(
        Profile {
            name: "strong",
            description: "32 chars, all character sets",
            kind: ProfileKind::Charset { length: 32, policy: CharsetBuilder::new() },
        },
    );
    v.push(
        Profile {
            name: "alpha",
            description: "16 chars, letters only",
            kind: ProfileKind::Charset {
                length: 16,
                policy: CharsetBuilder::new().digits(false).symbols(false),
            },
        },
    );
    v.push(
        Profile {
            name: "hex",
            description: "32 hex chars",
            kind: ProfileKind::Charset { length: 32, policy: CharsetBuilder::new().hex_only(true) },
        },
    );
    v.push(
        Profile {
            name: "memorable",
            description: "Passphrase with 4 words",
            kind: ProfileKind::Passphrase { options: PassphraseOptions::default() },
        },
    );
    v.push(
        Profile {
            name: "uuid",
            description: "UUID v4 format",
            kind: ProfileKind::Uuid,
        },
    );
    v
}

/// Looks a profile up by exact name: the catalog entry of that name when one
/// exists, and `None` exactly when the name is no catalog name.
pub fn find_profile(name: &str) -> (r: Option<Profile>)
    ensures
        match r {
            Option::Some(p) => is_catalog_profile(p) && profile_wf(p) && p.name@ == name@,
            Option::None => !catalog_names().contains(name@),
        },
{
    let mut profiles = get_profiles();
    let ghost all = profiles@;
    let mut i: usize = 0;
    while i < profiles.len()
        invariant
            profiles@ == all,
            all.len() == catalog_names().len(),
            i <= all.len(),
            forall|j: int|
                0 <= j < all.len() ==> is_catalog_profile(#[trigger] all[j]) && profile_wf(all[j]),
            forall|j: int| 0 <= j < all.len() ==> (#[trigger] all[j]).name@ == catalog_names()[j],
            forall|j: int| 0 <= j < i as int ==> catalog_names()[j] != name@,
        decreases all.len() - i,
    {
        if str_eq(profiles[i].name, name) {
            let p = profiles.remove(i);
            return Some(p);
        }
        i = i + 1;
    }
    proof {
        if catalog_names().contains(name@) {
            let j = choose|j: int| 0 <= j < catalog_names().len() && catalog_names()[j] == name@;
            assert(catalog_names()[j] != name@);
        }
    }
    None
}

/// Every character a `pin` or `pin6` generation can draw is a decimal digit:
/// their charset is exactly the ten digits.
pub proof fn lemma_digits_only_outputs_digits(c: char)
    requires
        charset_spec(digits_only_policy()).contains(c),
    ensures
        is_ascii_digit_char(c),
{
    lemma_digits_only_charset();
    reveal_strlit("0123456789");
    let i = choose|i: int| 0 <= i < digit_chars().len() && digit_chars()[i] == c;
    assert(is_ascii_digit_char(digit_chars()[i]));
}

/// Every character a `hex` generation can draw is a lowercase hexadecimal
/// digit.
pub proof fn lemma_hex_outputs_hex(c: char)
    requires
        charset_spec(hex_only_policy()).contains(c),
    ensures
        is_hex_digit(c),
{
    reveal_strlit("0123456789abcdef");
    let i = choose|i: int| 0 <= i < hex_chars().len() && hex_chars()[i] == c;
    assert(is_hex_digit(hex_chars()[i]));
}

} // verus!
