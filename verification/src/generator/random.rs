//! Uniform sampling from the platform's secure random source, and the two
//! generators built directly on it: fixed-charset passwords and version-4
//! UUIDs.

use crate::text::is_hex_digit;
use crate::text::push_char;
use rand::Rng;
use vstd::prelude::*;

verus! {

/// Relies on `rand::Rng::random_range` over `rand::rng()`, the OS-seeded
/// generator: returns a uniformly distributed index below `bound`. The call
/// panics only on an empty range, which the precondition rules out.
#[verifier::external_body]
pub(crate) fn random_index(bound: usize) -> (r: usize)
    requires
        bound > 0,
    ensures
        r < bound,
{
    rand::rng().random_range(0..bound)
}

/// Relies on `rand::Rng::random` over `rand::rng()`, the OS-seeded generator:
/// every byte value may come back, so nothing is promised of the result.
#[verifier::external_body]
fn random_byte() -> u8 {
    rand::rng().random()
}

/// Draws `length` characters independently from `charset`, with replacement.
pub fn generate_password(charset: &[char], length: usize) -> (r: String)
    requires
        charset@.len() > 0,
    ensures
        r@.len() == length,
        forall|i: int| 0 <= i < length ==> charset@.contains(#[trigger] r@[i]),
{
    let mut out = String::new();
    let mut k: usize = 0;
    while k < length
        invariant
            k <= length,
            charset@.len() > 0,
            out@.len() == k,
            forall|i: int| 0 <= i < k ==> charset@.contains(#[trigger] out@[i]),
        decreases length - k,
    {
        let idx = random_index(charset.len());
        let c = charset[idx];
        assert(charset@.contains(c));
        push_char(&mut out, c);
        k = k + 1;
    }
    out
}

/// The lowercase hexadecimal digit for a value `n` in `0..16`.
pub open spec fn hex_digit(n: int) -> char
    recommends
        0 <= n < 16,
{
    if n < 10 {
        ((48 + n) as u8) as char
    } else {
        ((87 + n) as u8) as char
    }
}

/// The two lowercase hexadecimal digits of a byte, high nibble first.
pub open spec fn hex_byte(b: u8) -> Seq<char> {
    seq![hex_digit(b as int / 16), hex_digit(b as int % 16)]
}

/// The shape of a version-4, variant-1 UUID string: 36 characters, hyphens
/// at positions 8, 13, 18 and 23, lowercase hexadecimal digits everywhere
/// else, the version digit `4` at position 14, and a variant digit among
/// `8`, `9`, `a`, `b` at position 19.
pub open spec fn is_uuid_string(s: Seq<char>) -> bool {
    &&& s.len() == 36
    &&& forall|i: int|
        0 <= i < 36 ==> if i == 8 || i == 13 || i == 18 || i == 23 {
            s[i] == '-'
        } else {
            is_hex_digit(#[trigger] s[i])
        }
    &&& s[14] == '4'
    &&& (s[19] == '8' || s[19] == '9' || s[19] == 'a' || s[19] == 'b')
}

/// Appends the two hexadecimal digits of `b`.
fn push_hex_byte(out: &mut String, b: u8)
    ensures
        final(out)@ == old(out)@ + hex_byte(b),
        final(out)@.len() == old(out)@.len() + 2,
{
    let hi = b / 16;
    let lo = b % 16;
    push_char(out, hex_digit_char(hi));
    push_char(out, hex_digit_char(lo));
    proof {
        assert(out@ =~= old(out)@ + hex_byte(b));
    }
}

/// Executable form of [`hex_digit`].
fn hex_digit_char(n: u8) -> (c: char)
    requires
        n < 16,
    ensures
        c == hex_digit(n as int),
{
    if n < 10 {
        (48 + n) as char
    } else {
        (87 + n) as char
    }
}

/// Produces a random UUID: 16 uniformly random bytes with the version and
/// variant bits forced, rendered as lowercase hex in the 8-4-4-4-12 grouping.
pub fn generate_uuid() -> (r: String)
    ensures
        is_uuid_string(r@),
{
    let mut bytes: Vec<u8> = Vec::new();
    let mut k: usize = 0;
    while k < 16
        invariant
            bytes@.len() == k,
            k <= 16,
        decreases 16 - k,
    {
        bytes.push(random_byte());
        k = k + 1;
    }

    // Version 4: the four high bits of byte 6 become 0100.
    let m6 = bytes[6];
    let b6 = (m6 & 0x0f) | 0x40;
    // Variant 1: the two high bits of byte 8 become 10.
    let m8 = bytes[8];
    let b8 = (m8 & 0x3f) | 0x80;
    bytes.set(6, b6);
    bytes.set(8, b8);
    proof {
        assert(b6 / 16 == 4) by (bit_vector)
            requires
                b6 == (m6 & 0x0f) | 0x40,
        ;
        assert(8 <= b8 / 16 < 12) by (bit_vector)
            requires
                b8 == (m8 & 0x3f) | 0x80,
        ;
    }

    let mut out = String::new();
    push_hex_byte(&mut out, bytes[0]);
    push_hex_byte(&mut out, bytes[1]);
    push_hex_byte(&mut out, bytes[2]);
    push_hex_byte(&mut out, bytes[3]);
    push_char(&mut out, '-');
    push_hex_byte(&mut out, bytes[4]);
    push_hex_byte(&mut out, bytes[5]);
    push_char(&mut out, '-');
    push_hex_byte(&mut out, bytes[6]);
    push_hex_byte(&mut out, bytes[7]);
    push_char(&mut out, '-');
    push_hex_byte(&mut out, bytes[8]);
    push_hex_byte(&mut out, bytes[9]);
    push_char(&mut out, '-');
    push_hex_byte(&mut out, bytes[10]);
    push_hex_byte(&mut out, bytes[11]);
    push_hex_byte(&mut out, bytes[12]);
    push_hex_byte(&mut out, bytes[13]);
    push_hex_byte(&mut out, bytes[14]);
    push_hex_byte(&mut out, bytes[15]);
    proof {
        assert(forall|n: int| 0 <= n < 16 ==> is_hex_digit(#[trigger] hex_digit(n)));
        assert(is_uuid_string(out@));
    }
    out
}

} // verus!
