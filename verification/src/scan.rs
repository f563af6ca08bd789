//! Maximal-munch scanners over byte strings: the length of the run of a
//! character class starting at a position, the all-spaces check that ends
//! every line grammar, and the move-name scanner that the move grammar uses
//! both for the kept name and for the discarded alternatives.

use vstd::prelude::*;

use crate::bytes::{
    is_digit, is_lower, is_move_char, is_name_char, is_upper, is_word_joint, spec_is_digit,
    spec_is_lower, spec_is_move_char, spec_is_name_char, spec_is_upper, spec_is_word_joint,
};

verus! {

/// Length of the run of name characters (`[a-z0-9:']`) starting at `i`.
pub open spec fn name_run_len(s: Seq<u8>, i: nat) -> nat
    decreases s.len() - i,
{
    if i < s.len() && spec_is_name_char(s[i as int]) {
        1 + name_run_len(s, i + 1)
    } else {
        0
    }
}

pub broadcast proof fn lemma_name_run_len_bounds(s: Seq<u8>, i: nat)
    ensures
        i <= s.len() ==> i + #[trigger] name_run_len(s, i) <= s.len(),
        i >= s.len() ==> name_run_len(s, i) == 0,
    decreases s.len() - i,
{
    if i < s.len() && spec_is_name_char(s[i as int]) {
        lemma_name_run_len_bounds(s, i + 1);
    }
}

pub fn name_run_len_x(s: &Vec<u8>, i: usize) -> (r: usize)
    requires
        i <= s@.len(),
    ensures
        r as nat == name_run_len(s@, i as nat),
        i + r <= s@.len(),
    decreases s@.len() - i,
{
    if i < s.len() && is_name_char(s[i]) {
        1 + name_run_len_x(s, i + 1)
    } else {
        0
    }
}

/// Length of the run of move characters (`[a-z']`) starting at `i`.
pub open spec fn move_run_len(s: Seq<u8>, i: nat) -> nat
    decreases s.len() - i,
{
    if i < s.len() && spec_is_move_char(s[i as int]) {
        1 + move_run_len(s, i + 1)
    } else {
        0
    }
}

pub broadcast proof fn lemma_move_run_len_bounds(s: Seq<u8>, i: nat)
    ensures
        i <= s.len() ==> i + #[trigger] move_run_len(s, i) <= s.len(),
        i >= s.len() ==> move_run_len(s, i) == 0,
    decreases s.len() - i,
{
    if i < s.len() && spec_is_move_char(s[i as int]) {
        lemma_move_run_len_bounds(s, i + 1);
    }
}

pub fn move_run_len_x(s: &Vec<u8>, i: usize) -> (r: usize)
    requires
        i <= s@.len(),
    ensures
        r as nat == move_run_len(s@, i as nat),
        i + r <= s@.len(),
    decreases s@.len() - i,
{
    if i < s.len() && is_move_char(s[i]) {
        1 + move_run_len_x(s, i + 1)
    } else {
        0
    }
}

/// Length of the run of lower-case letters starting at `i`.
pub open spec fn lower_run_len(s: Seq<u8>, i: nat) -> nat
    decreases s.len() - i,
{
    if i < s.len() && spec_is_lower(s[i as int]) {
        1 + lower_run_len(s, i + 1)
    } else {
        0
    }
}

pub broadcast proof fn lemma_lower_run_len_bounds(s: Seq<u8>, i: nat)
    ensures
        i <= s.len() ==> i + #[trigger] lower_run_len(s, i) <= s.len(),
        i >= s.len() ==> lower_run_len(s, i) == 0,
    decreases s.len() - i,
{
    if i < s.len() && spec_is_lower(s[i as int]) {
        lemma_lower_run_len_bounds(s, i + 1);
    }
}

pub fn lower_run_len_x(s: &Vec<u8>, i: usize) -> (r: usize)
    requires
        i <= s@.len(),
    ensures
        r as nat == lower_run_len(s@, i as nat),
        i + r <= s@.len(),
    decreases s@.len() - i,
{
    if i < s.len() && is_lower(s[i]) {
        1 + lower_run_len_x(s, i + 1)
    } else {
        0
    }
}

/// Length of the run of decimal digits starting at `i`.
pub open spec fn digit_run_len(s: Seq<u8>, i: nat) -> nat
    decreases s.len() - i,
{
    if i < s.len() && spec_is_digit(s[i as int]) {
        1 + digit_run_len(s, i + 1)
    } else {
        0
    }
}

pub broadcast proof fn lemma_digit_run_len_bounds(s: Seq<u8>, i: nat)
    ensures
        i <= s.len() ==> i + #[trigger] digit_run_len(s, i) <= s.len(),
        i >= s.len() ==> digit_run_len(s, i) == 0,
    decreases s.len() - i,
{
    if i < s.len() && spec_is_digit(s[i as int]) {
        lemma_digit_run_len_bounds(s, i + 1);
    }
}

pub fn digit_run_len_x(s: &Vec<u8>, i: usize) -> (r: usize)
    requires
        i <= s@.len(),
    ensures
        r as nat == digit_run_len(s@, i as nat),
        i + r <= s@.len(),
        forall|t: int| i <= t < i + r ==> spec_is_digit(s@[t]),
    decreases s@.len() - i,
{
    if i < s.len() && is_digit(s[i]) {
        1 + digit_run_len_x(s, i + 1)
    } else {
        0
    }
}

/// Every byte from `i` to the end is a space: the trailing-blank allowance
/// of all three grammars.
pub open spec fn only_spaces_from(s: Seq<u8>, i: nat) -> bool {
    forall|j: int| i <= j < s.len() ==> s[j] == 32
}

pub fn only_spaces_from_x(s: &Vec<u8>, i: usize) -> (r: bool)
    requires
        i <= s@.len(),
    ensures
        r == only_spaces_from(s@, i as nat),
    decreases s@.len() - i,
{
    if i < s.len() {
        if s[i] == 32 {
            only_spaces_from_x(s, i + 1)
        } else {
            false
        }
    } else {
        true
    }
}

/// Maximal run of move continuation words: a capitalized word after a
/// space, a word of either case after a hyphen.
pub open spec fn move_units_end(s: Seq<u8>, i: nat) -> nat
    decreases s.len() - i,
    via move_units_end_dec
{
    if i + 1 < s.len() && spec_is_word_joint(s[i as int], s[i as int + 1]) {
        move_units_end(s, i + 2 + move_run_len(s, i + 2))
    } else {
        i
    }
}

#[via_fn]
proof fn move_units_end_dec(s: Seq<u8>, i: nat) {
    if i + 1 < s.len() && spec_is_word_joint(s[i as int], s[i as int + 1]) {
        lemma_move_run_len_bounds(s, i + 2);
    }
}

pub broadcast proof fn lemma_move_units_end_bounds(s: Seq<u8>, i: nat)
    ensures
        i <= #[trigger] move_units_end(s, i),
        i <= s.len() ==> move_units_end(s, i) <= s.len(),
    decreases s.len() - i,
{
    if i + 1 < s.len() && spec_is_word_joint(s[i as int], s[i as int + 1]) {
        lemma_move_run_len_bounds(s, i + 2);
        lemma_move_units_end_bounds(s, i + 2 + move_run_len(s, i + 2));
    }
}

pub fn move_units_end_x(s: &Vec<u8>, i: usize) -> (r: usize)
    requires
        i <= s@.len(),
    ensures
        r as nat == move_units_end(s@, i as nat),
        i <= r <= s@.len(),
    decreases s@.len() - i,
{
    proof {
        vstd::std_specs::vec::axiom_spec_len(s);
    }
    if s.len() - i >= 2 && is_word_joint(s[i], s[i + 1]) {
        let j: usize = i + 2 + move_run_len_x(s, i + 2);
        move_units_end_x(s, j)
    } else {
        i
    }
}

/// A move name starting at `i`: `[A-Z][a-z']*` then continuation words.
pub open spec fn move_name_end(s: Seq<u8>, i: nat) -> Option<nat> {
    if i < s.len() && spec_is_upper(s[i as int]) {
        Some(move_units_end(s, i + 1 + move_run_len(s, i + 1)))
    } else {
        None
    }
}

pub fn move_name_end_x(s: &Vec<u8>, i: usize) -> (r: Option<usize>)
    requires
        i <= s@.len(),
    ensures
        match r {
            Some(e) => move_name_end(s@, i as nat) == Some(e as nat) && i <= e <= s@.len(),
            None => move_name_end(s@, i as nat) is None,
        },
{
    if i < s.len() && is_upper(s[i]) {
        Some(move_units_end_x(s, i + 1 + move_run_len_x(s, i + 1)))
    } else {
        None
    }
}

} // verus!
