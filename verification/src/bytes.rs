//! Byte-level helpers shared by the codec, the grammars and the builder:
//! character classes of the line grammars and small copying utilities.

use vstd::prelude::*;

verus! {

/// `A`..`Z`
pub open spec fn spec_is_upper(c: u8) -> bool {
    65 <= c && c <= 90
}

#[verifier::when_used_as_spec(spec_is_upper)]
pub fn is_upper(c: u8) -> (r: bool)
    ensures
        r == spec_is_upper(c),
{
    65 <= c && c <= 90
}

/// `a`..`z`
pub open spec fn spec_is_lower(c: u8) -> bool {
    97 <= c && c <= 122
}

#[verifier::when_used_as_spec(spec_is_lower)]
pub fn is_lower(c: u8) -> (r: bool)
    ensures
        r == spec_is_lower(c),
{
    97 <= c && c <= 122
}

/// `0`..`9`
pub open spec fn spec_is_digit(c: u8) -> bool {
    48 <= c && c <= 57
}

#[verifier::when_used_as_spec(spec_is_digit)]
pub fn is_digit(c: u8) -> (r: bool)
    ensures
        r == spec_is_digit(c),
{
    48 <= c && c <= 57
}

/// A letter of either case.
pub open spec fn spec_is_alpha(c: u8) -> bool {
    spec_is_upper(c) || spec_is_lower(c)
}

#[verifier::when_used_as_spec(spec_is_alpha)]
pub fn is_alpha(c: u8) -> (r: bool)
    ensures
        r == spec_is_alpha(c),
{
    is_upper(c) || is_lower(c)
}

/// The continuation characters of a species or item word: `a`..`z`, `0`..`9`,
/// `:` or `'`.
pub open spec fn spec_is_name_char(c: u8) -> bool {
    spec_is_lower(c) || spec_is_digit(c) || c == 58 || c == 39
}

#[verifier::when_used_as_spec(spec_is_name_char)]
pub fn is_name_char(c: u8) -> (r: bool)
    ensures
        r == spec_is_name_char(c),
{
    is_lower(c) || is_digit(c) || c == 58 || c == 39
}

/// The continuation characters of a move word: `a`..`z` or `'`.
pub open spec fn spec_is_move_char(c: u8) -> bool {
    spec_is_lower(c) || c == 39
}

#[verifier::when_used_as_spec(spec_is_move_char)]
pub fn is_move_char(c: u8) -> (r: bool)
    ensures
        r == spec_is_move_char(c),
{
    is_lower(c) || c == 39
}

/// A word separator inside a multi-word name: `-` or a space.
pub open spec fn spec_is_word_sep(c: u8) -> bool {
    c == 45 || c == 32
}

#[verifier::when_used_as_spec(spec_is_word_sep)]
pub fn is_word_sep(c: u8) -> (r: bool)
    ensures
        r == spec_is_word_sep(c),
{
    c == 45 || c == 32
}

/// A separator-plus-first-letter pair that continues a multi-word name:
/// after a hyphen the next word may start with a letter of either case,
/// after a space it must be capitalized.
pub open spec fn spec_is_word_joint(c: u8, d: u8) -> bool {
    (c == 45 && spec_is_alpha(d)) || (c == 32 && spec_is_upper(d))
}

#[verifier::when_used_as_spec(spec_is_word_joint)]
pub fn is_word_joint(c: u8, d: u8) -> (r: bool)
    ensures
        r == spec_is_word_joint(c, d),
{
    (c == 45 && is_alpha(d)) || (c == 32 && is_upper(d))
}

/// ASCII whitespace as trimmed from a block: space, `\t`, `\n`, vertical tab,
/// form feed or `\r`.
pub open spec fn spec_is_space(c: u8) -> bool {
    c == 32 || (9 <= c && c <= 13)
}

#[verifier::when_used_as_spec(spec_is_space)]
pub fn is_space(c: u8) -> (r: bool)
    ensures
        r == spec_is_space(c),
{
    c == 32 || (9 <= c && c <= 13)
}

/// Copies `s[a..b]` into a fresh vector.
pub fn copy_range(s: &Vec<u8>, a: usize, b: usize) -> (r: Vec<u8>)
    requires
        a <= b <= s@.len(),
    ensures
        r@ == s@.subrange(a as int, b as int),
{
    let mut out: Vec<u8> = Vec::new();
    let mut i: usize = a;
    while i < b
        invariant
            a <= i <= b <= s@.len(),
            out@ == s@.subrange(a as int, i as int),
        decreases b - i,
    {
        out.push(s[i]);
        i = i + 1;
        proof {
            assert(out@ =~= s@.subrange(a as int, i as int));
        }
    }
    out
}

/// Copies a whole byte vector.
pub fn copy_bytes(s: &Vec<u8>) -> (r: Vec<u8>)
    ensures
        r@ == s@,
{
    let r = copy_range(s, 0, s.len());
    proof {
        assert(s@.subrange(0, s@.len() as int) =~= s@);
    }
    r
}

/// Compares two byte vectors for equality of their contents.
pub fn bytes_eq(a: &Vec<u8>, b: &Vec<u8>) -> (r: bool)
    ensures
        r == (a@ == b@),
{
    if a.len() != b.len() {
        proof {
            assert(a@ != b@);
        }
        return false;
    }
    let mut i: usize = 0;
    while i < a.len()
        invariant
            a@.len() == b@.len(),
            i <= a@.len(),
            forall|j: int| 0 <= j < i ==> a@[j] == b@[j],
        decreases a@.len() - i,
    {
        if a[i] != b[i] {
            proof {
                assert(a@ != b@);
            }
            return false;
        }
        i = i + 1;
    }
    proof {
        assert(a@ =~= b@);
    }
    true
}

} // verus!
