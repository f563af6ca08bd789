//! The three line-level grammars of a team paste, as deterministic scanners
//! over bytes.
//!
//! * header line: `<prefix> "(" Species ")"` or a bare `Species`, optionally
//!   followed by a gender marker `" (M)"` / `" (F)"`, optionally followed by
//!   `" @ " Item`, then spaces;
//! * move line: `"- "` and a move name, optionally a bracketed qualifier,
//!   optionally `" / "`-separated alternatives of which the first is kept;
//! * stat line remainder: up to six `"<int> <Abbrev>"` terms in the fixed
//!   order HP, Atk, Def, SpA, SpD, Spe.
//!
//! Names are capitalized words, optionally hyphen- or space-joined,
//! optionally carrying `:`, `'` or a trailing period.  Each `spec` parser is
//! the grammar's definition; each exec parser returns exactly what its spec
//! parser denotes.  A line that fails its grammar is never an error: callers
//! demote it (see the builder).

use vstd::prelude::*;

use crate::bytes::{
    copy_range, is_upper, is_word_joint, is_word_sep, spec_is_digit, spec_is_upper,
    spec_is_word_joint, spec_is_word_sep,
};
use crate::scan::{
    digit_run_len, digit_run_len_x, lower_run_len, lower_run_len_x, move_name_end,
    move_name_end_x, name_run_len, name_run_len_x, only_spaces_from, only_spaces_from_x,
};

verus! {

broadcast use
    crate::scan::lemma_name_run_len_bounds,
    crate::scan::lemma_move_run_len_bounds,
    crate::scan::lemma_lower_run_len_bounds,
    crate::scan::lemma_digit_run_len_bounds,
    crate::scan::lemma_move_units_end_bounds;

// ---------------------------------------------------------------------------
// names: species, items, moves

/// Skips an optional trailing period at `j`.
pub open spec fn dot_end(s: Seq<u8>, j: nat) -> nat {
    if j < s.len() && s[j as int] == 46 {
        j + 1
    } else {
        j
    }
}

fn dot_end_x(s: &Vec<u8>, j: usize) -> (r: usize)
    requires
        j <= s@.len(),
    ensures
        r as nat == dot_end(s@, j as nat),
        j <= r <= s@.len(),
{
    proof {
        vstd::std_specs::vec::axiom_spec_len(s);
    }
    if j < s.len() && s[j] == 46 {
        j + 1
    } else {
        j
    }
}

/// Maximal run of species continuation words, each optionally ending in a
/// period: a capitalized word after a space, a word of either case after a
/// hyphen.  Returns the end position.
pub open spec fn species_units_end(s: Seq<u8>, i: nat) -> nat
    decreases s.len() - i,
{
    if i + 1 < s.len() && spec_is_word_joint(s[i as int], s[i as int + 1]) {
        species_units_end(s, dot_end(s, i + 2 + name_run_len(s, i + 2)))
    } else {
        i
    }
}

fn species_units_end_x(s: &Vec<u8>, i: usize) -> (r: usize)
    requires
        i <= s@.len(),
    ensures
        r as nat == species_units_end(s@, i as nat),
        i <= r <= s@.len(),
    decreases s@.len() - i,
{
    proof {
        vstd::std_specs::vec::axiom_spec_len(s);
    }
    if s.len() - i >= 2 && is_word_joint(s[i], s[i + 1]) {
        let j: usize = dot_end_x(s, i + 2 + name_run_len_x(s, i + 2));
        species_units_end_x(s, j)
    } else {
        i
    }
}

/// A species name starting at `i`: `[A-Z][a-z0-9:']+`, an optional period,
/// then continuation words.  Returns the end of the maximal match, or `None`
/// where no species name starts at `i`.
pub open spec fn species_end(s: Seq<u8>, i: nat) -> Option<nat> {
    if i < s.len() && spec_is_upper(s[i as int]) {
        let j = i + 1 + name_run_len(s, i + 1);
        if j >= i + 2 {
            Some(species_units_end(s, dot_end(s, j)))
        } else {
            None
        }
    } else {
        None
    }
}

fn species_end_x(s: &Vec<u8>, i: usize) -> (r: Option<usize>)
    requires
        i <= s@.len(),
    ensures
        match r {
            Some(e) => species_end(s@, i as nat) == Some(e as nat) && i <= e <= s@.len(),
            None => species_end(s@, i as nat) is None,
        },
{
    proof {
        vstd::std_specs::vec::axiom_spec_len(s);
    }
    if i < s.len() && is_upper(s[i]) {
        let run: usize = name_run_len_x(s, i + 1);
        let j: usize = i + 1 + run;
        if run >= 1 {
            Some(species_units_end_x(s, dot_end_x(s, j)))
        } else {
            None
        }
    } else {
        None
    }
}

/// Maximal run of item continuation words: `[- ][A-Z][a-z0-9:']*`.
pub open spec fn item_units_end(s: Seq<u8>, i: nat) -> nat
    decreases s.len() - i,
{
    if i + 1 < s.len() && spec_is_word_sep(s[i as int]) && spec_is_upper(s[i as int + 1]) {
        item_units_end(s, i + 2 + name_run_len(s, i + 2))
    } else {
        i
    }
}

fn item_units_end_x(s: &Vec<u8>, i: usize) -> (r: usize)
    requires
        i <= s@.len(),
    ensures
        r as nat == item_units_end(s@, i as nat),
        i <= r <= s@.len(),
    decreases s@.len() - i,
{
    proof {
        vstd::std_specs::vec::axiom_spec_len(s);
    }
    if s.len() - i >= 2 && is_word_sep(s[i]) && is_upper(s[i + 1]) {
        let j: usize = i + 2 + name_run_len_x(s, i + 2);
        item_units_end_x(s, j)
    } else {
        i
    }
}

/// An item name starting at `i`: `[A-Z][a-z0-9:']*` then continuation words.
pub open spec fn item_end(s: Seq<u8>, i: nat) -> Option<nat> {
    if i < s.len() && spec_is_upper(s[i as int]) {
        Some(item_units_end(s, i + 1 + name_run_len(s, i + 1)))
    } else {
        None
    }
}

fn item_end_x(s: &Vec<u8>, i: usize) -> (r: Option<usize>)
    requires
        i <= s@.len(),
    ensures
        match r {
            Some(e) => item_end(s@, i as nat) == Some(e as nat) && i <= e <= s@.len(),
            None => item_end(s@, i as nat) is None,
        },
{
    proof {
        vstd::std_specs::vec::axiom_spec_len(s);
    }
    if i < s.len() && is_upper(s[i]) {
        Some(item_units_end_x(s, i + 1 + name_run_len_x(s, i + 1)))
    } else {
        None
    }
}

// ---------------------------------------------------------------------------
// header line

/// Gender read from the header: `" (M)"`, `" (F)"` or no marker.
#[derive(Clone, Copy, Debug, PartialEq, Eq, Structural)]
pub enum Gender {
    Male,
    Female,
    Neutral,
}

/// A recognized header line: species, gender marker, held item.
pub struct Header {
    pub species: Vec<u8>,
    pub gender: Gender,
    pub item: Option<Vec<u8>>,
}

/// The mathematical value of a [`Header`].
pub ghost struct HeaderView {
    pub species: Seq<u8>,
    pub gender: Gender,
    pub item: Option<Seq<u8>>,
}

impl View for Header {
    type V = HeaderView;

    open spec fn view(&self) -> HeaderView {
        HeaderView {
            species: self.species@,
            gender: self.gender,
            item: match self.item {
                Some(v) => Some(v@),
                None => None,
            },
        }
    }
}

pub open spec fn header_opt_view(r: Option<Header>) -> Option<HeaderView> {
    match r {
        Some(h) => Some(h@),
        None => None,
    }
}

/// The optional gender marker `" (M)"` / `" (F)"` at `i`, and the position
/// after it.
pub open spec fn gender_at(s: Seq<u8>, i: nat) -> (Gender, nat) {
    if i + 4 <= s.len() && s[i as int] == 32 && s[i as int + 1] == 40 && (s[i as int + 2] == 77 || s[i as int + 2] == 70) && s[i as int + 3] == 41 {
        (if s[i as int + 2] == 77 {
            Gender::Male
        } else {
            Gender::Female
        }, i + 4)
    } else {
        (Gender::Neutral, i)
    }
}

fn gender_at_x(s: &Vec<u8>, i: usize) -> (r: (Gender, usize))
    requires
        i <= s@.len(),
    ensures
        r.0 == gender_at(s@, i as nat).0,
        r.1 as nat == gender_at(s@, i as nat).1,
        i <= r.1 <= s@.len(),
{
    proof {
        vstd::std_specs::vec::axiom_spec_len(s);
    }
    if s.len() - i >= 4 && s[i] == 32 && s[i + 1] == 40 && (s[i + 2] == 77 || s[i + 2] == 70) && s[i
        + 3] == 41 {
        (if s[i + 2] == 77 {
            Gender::Male
        } else {
            Gender::Female
        }, i + 4)
    } else {
        (Gender::Neutral, i)
    }
}

/// The optional `" @ " Item` tail at `i`: `None` where `" @ "` stands but no
/// item name follows (the line then fails), otherwise the item (if any) and
/// the position after it.
pub open spec fn item_at(s: Seq<u8>, i: nat) -> Option<(Option<Seq<u8>>, nat)> {
    if i + 3 <= s.len() && s[i as int] == 32 && s[i as int + 1] == 64 && s[i as int + 2] == 32 {
        match item_end(s, i + 3) {
            None => None,
            Some(e) => Some((Some(s.subrange(i as int + 3, e as int)), e)),
        }
    } else {
        Some((None, i))
    }
}

pub open spec fn item_part_view(r: Option<(Option<Vec<u8>>, usize)>) -> Option<
    (Option<Seq<u8>>, nat),
> {
    match r {
        Some((Some(v), e)) => Some((Some(v@), e as nat)),
        Some((None, e)) => Some((None, e as nat)),
        None => None,
    }
}

fn item_at_x(s: &Vec<u8>, i: usize) -> (r: Option<(Option<Vec<u8>>, usize)>)
    requires
        i <= s@.len(),
    ensures
        item_part_view(r) == item_at(s@, i as nat),
        match r {
            Some(p) => i <= p.1 <= s@.len(),
            None => true,
        },
{
    proof {
        vstd::std_specs::vec::axiom_spec_len(s);
    }
    if s.len() - i >= 3 && s[i] == 32 && s[i + 1] == 64 && s[i + 2] == 32 {
        match item_end_x(s, i + 3) {
            None => None,
            Some(e) => Some((Some(copy_range(s, i + 3, e)), e)),
        }
    } else {
        Some((None, i))
    }
}

/// What may follow the species in a header line: the optional gender marker,
/// the optional held item, then only spaces.
pub open spec fn parse_tail(s: Seq<u8>, i: nat) -> Option<(Gender, Option<Seq<u8>>)> {
    let (g, i1) = gender_at(s, i);
    match item_at(s, i1) {
        None => None,
        Some((it, i2)) => if only_spaces_from(s, i2) {
            Some((g, it))
        } else {
            None
        },
    }
}

pub open spec fn tail_view(r: Option<(Gender, Option<Vec<u8>>)>) -> Option<
    (Gender, Option<Seq<u8>>),
> {
    match r {
        Some((g, Some(v))) => Some((g, Some(v@))),
        Some((g, None)) => Some((g, None)),
        None => None,
    }
}

fn parse_tail_x(s: &Vec<u8>, i: usize) -> (r: Option<(Gender, Option<Vec<u8>>)>)
    requires
        i <= s@.len(),
    ensures
        tail_view(r) == parse_tail(s@, i as nat),
{
    let (g, i1) = gender_at_x(s, i);
    match item_at_x(s, i1) {
        None => None,
        Some((it, i2)) => if only_spaces_from_x(s, i2) {
            Some((g, it))
        } else {
            None
        },
    }
}

/// The nickname form anchored at a `" ("` occurrence at `p`: a species name
/// inside the parentheses, then the tail.
pub open spec fn parse_nick_at(s: Seq<u8>, p: nat) -> Option<HeaderView> {
    match species_end(s, p + 2) {
        None => None,
        Some(e) => if e < s.len() && s[e as int] == 41 {
            match parse_tail(s, e + 1) {
                None => None,
                Some((g, it)) => Some(
                    HeaderView { species: s.subrange(p as int + 2, e as int), gender: g, item: it },
                ),
            }
        } else {
            None
        },
    }
}

fn parse_nick_at_x(s: &Vec<u8>, p: usize) -> (r: Option<Header>)
    requires
        p + 2 <= s@.len(),
    ensures
        header_opt_view(r) == parse_nick_at(s@, p as nat),
{
    proof {
        vstd::std_specs::vec::axiom_spec_len(s);
    }
    match species_end_x(s, p + 2) {
        None => None,
        Some(e) => if e < s.len() && s[e] == 41 {
            match parse_tail_x(s, e + 1) {
                None => None,
                Some((g, it)) => Some(Header { species: copy_range(s, p + 2, e), gender: g, item: it }),
            }
        } else {
            None
        },
    }
}

/// Tries the nickname form at each `" ("` occurrence at a position of at
/// most `p`, rightmost first — the greedy prefix of the header grammar.
pub open spec fn nick_search(s: Seq<u8>, p: int) -> Option<HeaderView>
    decreases p + 1,
{
    if p < 0 {
        None
    } else if p + 1 < s.len() && s[p] == 32 && s[p + 1] == 40 {
        match parse_nick_at(s, p as nat) {
            Some(h) => Some(h),
            None => nick_search(s, p - 1),
        }
    } else {
        nick_search(s, p - 1)
    }
}

/// Exec mirror of [`nick_search`]; `pp` stands for the position `pp - 1`, so
/// `pp == 0` means the search is exhausted.
fn nick_search_x(s: &Vec<u8>, pp: usize) -> (r: Option<Header>)
    requires
        pp <= s@.len(),
    ensures
        header_opt_view(r) == nick_search(s@, pp as int - 1),
    decreases pp,
{
    proof {
        vstd::std_specs::vec::axiom_spec_len(s);
    }
    if pp == 0 {
        None
    } else {
        let p: usize = pp - 1;
        if p + 1 < s.len() && s[p] == 32 && s[p + 1] == 40 {
            match parse_nick_at_x(s, p) {
                Some(h) => Some(h),
                None => nick_search_x(s, p),
            }
        } else {
            nick_search_x(s, p)
        }
    }
}

/// The bare form: a species name at the start of the line, then the tail.
pub open spec fn parse_bare(s: Seq<u8>) -> Option<HeaderView> {
    match species_end(s, 0) {
        None => None,
        Some(e) => match parse_tail(s, e) {
            None => None,
            Some((g, it)) => Some(
                HeaderView { species: s.subrange(0, e as int), gender: g, item: it },
            ),
        },
    }
}

fn parse_bare_x(s: &Vec<u8>) -> (r: Option<Header>)
    ensures
        header_opt_view(r) == parse_bare(s@),
{
    match species_end_x(s, 0) {
        None => None,
        Some(e) => match parse_tail_x(s, e) {
            None => None,
            Some((g, it)) => Some(Header { species: copy_range(s, 0, e), gender: g, item: it }),
        },
    }
}

/// The header grammar over a whole line: the nickname form wins where it
/// matches (rightmost `" ("` first), else the bare form; `None` classifies
/// the block as free text.
pub open spec fn spec_parse_header(s: Seq<u8>) -> Option<HeaderView> {
    match nick_search(s, s.len() - 2) {
        Some(h) => Some(h),
        None => parse_bare(s),
    }
}

/// Applies the header grammar to the first line of a block.
pub fn parse_header(s: &Vec<u8>) -> (r: Option<Header>)
    ensures
        header_opt_view(r) == spec_parse_header(s@),
{
    let n: usize = s.len();
    let pp: usize = if n >= 1 {
        n - 1
    } else {
        0
    };
    let nick = nick_search_x(s, pp);
    proof {
        if n == 0 {
            assert(nick_search(s@, -1) is None);
            assert(nick_search(s@, -2) is None);
        }
    }
    match nick {
        Some(h) => Some(h),
        None => parse_bare_x(s),
    }
}

// ---------------------------------------------------------------------------
// move line

/// The optional bracketed qualifier `" [<Type>]"` at `i`; returns the
/// position after it, or `i` where none (or a malformed one) stands.
pub open spec fn qual_at(s: Seq<u8>, i: nat) -> nat {
    if i + 2 < s.len() && s[i as int] == 32 && s[i as int + 1] == 91 && spec_is_upper(s[i as int + 2]) {
        let j = i + 3 + lower_run_len(s, i + 3);
        if j > i + 3 && j < s.len() && s[j as int] == 93 {
            j + 1
        } else {
            i
        }
    } else {
        i
    }
}

fn qual_at_x(s: &Vec<u8>, i: usize) -> (r: usize)
    requires
        i <= s@.len(),
    ensures
        r as nat == qual_at(s@, i as nat),
        i <= r <= s@.len(),
{
    proof {
        vstd::std_specs::vec::axiom_spec_len(s);
    }
    if s.len() - i >= 3 && s[i] == 32 && s[i + 1] == 91 && is_upper(s[i + 2]) {
        let j: usize = i + 3 + lower_run_len_x(s, i + 3);
        if j > i + 3 && j < s.len() && s[j] == 93 {
            j + 1
        } else {
            i
        }
    } else {
        i
    }
}

/// Zero or more `" / " <MoveName>` alternatives from `i`; returns the end of
/// the last one that matches.
pub open spec fn alts_end(s: Seq<u8>, i: nat) -> nat
    decreases s.len() - i,
{
    if i + 3 <= s.len() && s[i as int] == 32 && s[i as int + 1] == 47 && s[i as int + 2] == 32 {
        match move_name_end(s, i + 3) {
            Some(e) => alts_end(s, e),
            None => i,
        }
    } else {
        i
    }
}

fn alts_end_x(s: &Vec<u8>, i: usize) -> (r: usize)
    requires
        i <= s@.len(),
    ensures
        r as nat == alts_end(s@, i as nat),
        i <= r <= s@.len(),
    decreases s@.len() - i,
{
    proof {
        vstd::std_specs::vec::axiom_spec_len(s);
    }
    if s.len() - i >= 3 && s[i] == 32 && s[i + 1] == 47 && s[i + 2] == 32 {
        match move_name_end_x(s, i + 3) {
            Some(e) => alts_end_x(s, e),
            None => i,
        }
    } else {
        i
    }
}

pub open spec fn bytes_opt_view(r: Option<Vec<u8>>) -> Option<Seq<u8>> {
    match r {
        Some(v) => Some(v@),
        None => None,
    }
}

/// The move grammar over a whole line: `"- "`, a move name, the optional
/// qualifier, the optional alternatives, then spaces.  Returns the first
/// (kept) move name.
pub open spec fn spec_parse_move(s: Seq<u8>) -> Option<Seq<u8>> {
    if s.len() >= 2 && s[0] == 45 && s[1] == 32 {
        match move_name_end(s, 2) {
            None => None,
            Some(e) => {
                let a = alts_end(s, qual_at(s, e));
                if only_spaces_from(s, a) {
                    Some(s.subrange(2, e as int))
                } else {
                    None
                }
            },
        }
    } else {
        None
    }
}

/// Applies the move grammar to one line.
pub fn parse_move(s: &Vec<u8>) -> (r: Option<Vec<u8>>)
    ensures
        bytes_opt_view(r) == spec_parse_move(s@),
{
    if s.len() >= 2 && s[0] == 45 && s[1] == 32 {
        match move_name_end_x(s, 2) {
            None => None,
            Some(e) => {
                let a: usize = alts_end_x(s, qual_at_x(s, e));
                if only_spaces_from_x(s, a) {
                    Some(copy_range(s, 2, e))
                } else {
                    None
                }
            },
        }
    } else {
        None
    }
}

// ---------------------------------------------------------------------------
// stat line

/// The six optional stats of an `"EVs: "` / `"IVs: "` line; a `None` field
/// is a term that the line does not mention.
#[derive(Clone, Copy, Debug)]
pub struct Stats {
    pub hp: Option<u32>,
    pub atk: Option<u32>,
    pub def: Option<u32>,
    pub spa: Option<u32>,
    pub spd: Option<u32>,
    pub spe: Option<u32>,
}

pub open spec fn stats_opt_view(r: Option<Stats>) -> Option<Stats> {
    r
}

/// The value of the digit run `s[i..j]`, folded left to right, refusing a
/// value that does not fit in 32 bits.
pub open spec fn val_u32(s: Seq<u8>, i: nat, j: nat) -> Option<u32>
    decreases j - i,
{
    if j <= i {
        Some(0u32)
    } else {
        match val_u32(s, i, (j - 1) as nat) {
            None => None,
            Some(v) => {
                let w = v as int * 10 + (s[j as int - 1] as int - 48);
                if w <= 0xffff_ffff {
                    Some(w as u32)
                } else {
                    None
                }
            },
        }
    }
}

proof fn lemma_val_u32_none(s: Seq<u8>, i: nat, k: nat, j: nat)
    requires
        k <= j,
        val_u32(s, i, k) is None,
    ensures
        val_u32(s, i, j) is None,
    decreases j - k,
{
    if k < j {
        lemma_val_u32_none(s, i, k, (j - 1) as nat);
    }
}

fn val_u32_x(s: &Vec<u8>, i: usize, j: usize) -> (r: Option<u32>)
    requires
        i <= j <= s@.len(),
        forall|t: int| i <= t < j ==> spec_is_digit(s@[t]),
    ensures
        r == val_u32(s@, i as nat, j as nat),
{
    let mut k: usize = i;
    let mut acc: u32 = 0;
    while k < j
        invariant
            i <= k <= j <= s@.len(),
            forall|t: int| i <= t < j ==> spec_is_digit(s@[t]),
            val_u32(s@, i as nat, k as nat) == Some(acc),
        decreases j - k,
    {
        let d: u8 = s[k] - 48;
        let w: u64 = acc as u64 * 10 + d as u64;
        if w > 0xffff_ffff {
            proof {
                assert(val_u32(s@, i as nat, (k + 1) as nat) is None);
                lemma_val_u32_none(s@, i as nat, (k + 1) as nat, j as nat);
            }
            return None;
        }
        acc = w as u32;
        k = k + 1;
    }
    Some(acc)
}

/// One optional `"<int> <Abbrev>"` term at `i`: `None` means the whole line
/// is invalid (a value out of range); otherwise the value (where the term
/// stands) and the position after it.
pub open spec fn stat_term_at(s: Seq<u8>, i: nat, lit: Seq<u8>) -> Option<(Option<u32>, nat)> {
    let d = digit_run_len(s, i);
    if d >= 1 && matches_at(s, i + d, lit) {
        match val_u32(s, i, i + d) {
            None => None,
            Some(v) => Some((Some(v), i + d + lit.len())),
        }
    } else {
        Some((None, i))
    }
}

/// The literal `lit` stands at `i` in `s`.
pub open spec fn matches_at(s: Seq<u8>, i: nat, lit: Seq<u8>) -> bool {
    i + lit.len() <= s.len() && s.subrange(i as int, i as int + lit.len() as int) == lit
}

/// The optional `" / "` separator at `i`.
pub open spec fn stat_sep_at(s: Seq<u8>, i: nat) -> nat {
    if matches_at(s, i, seq![32u8, 47u8, 32u8]) {
        i + 3
    } else {
        i
    }
}

fn match3(s: &Vec<u8>, i: usize, a: u8, b: u8, c: u8) -> (r: bool)
    requires
        i <= s@.len(),
    ensures
        r == matches_at(s@, i as nat, seq![a, b, c]),
{
    proof {
        vstd::std_specs::vec::axiom_spec_len(s);
    }
    let m = s.len() - i >= 3 && s[i] == a && s[i + 1] == b && s[i + 2] == c;
    proof {
        if m {
            assert(s@.subrange(i as int, i as int + 3) =~= seq![a, b, c]);
        } else if i + 3 <= s@.len() && s@.subrange(i as int, i as int + 3) == seq![a, b, c] {
            assert(s@[i as int] == seq![a, b, c][0]);
            assert(s@[i as int + 1] == seq![a, b, c][1]);
            assert(s@[i as int + 2] == seq![a, b, c][2]);
        }
    }
    m
}

fn match4(s: &Vec<u8>, i: usize, a: u8, b: u8, c: u8, d: u8) -> (r: bool)
    requires
        i <= s@.len(),
    ensures
        r == matches_at(s@, i as nat, seq![a, b, c, d]),
{
    proof {
        vstd::std_specs::vec::axiom_spec_len(s);
    }
    let m = s.len() - i >= 4 && s[i] == a && s[i + 1] == b && s[i + 2] == c && s[i + 3] == d;
    proof {
        if m {
            assert(s@.subrange(i as int, i as int + 4) =~= seq![a, b, c, d]);
        } else if i + 4 <= s@.len() && s@.subrange(i as int, i as int + 4) == seq![a, b, c, d] {
            assert(s@[i as int] == seq![a, b, c, d][0]);
            assert(s@[i as int + 1] == seq![a, b, c, d][1]);
            assert(s@[i as int + 2] == seq![a, b, c, d][2]);
            assert(s@[i as int + 3] == seq![a, b, c, d][3]);
        }
    }
    m
}

/// Exec form of one term whose abbreviation is 3 bytes long (`" HP"`).
fn stat_term3_x(s: &Vec<u8>, i: usize, a: u8, b: u8, c: u8) -> (r: Option<(Option<u32>, usize)>)
    requires
        i <= s@.len(),
    ensures
        match r {
            Some(p) => stat_term_at(s@, i as nat, seq![a, b, c]) == Some((p.0, p.1 as nat)) && i
                <= p.1 <= s@.len(),
            None => stat_term_at(s@, i as nat, seq![a, b, c]) is None,
        },
{
    proof {
        vstd::std_specs::vec::axiom_spec_len(s);
    }
    let d: usize = digit_run_len_x(s, i);
    if d >= 1 && match3(s, i + d, a, b, c) {
        match val_u32_x(s, i, i + d) {
            None => None,
            Some(v) => Some((Some(v), i + d + 3)),
        }
    } else {
        Some((None, i))
    }
}

/// Exec form of one term whose abbreviation is 4 bytes long.
fn stat_term4_x(s: &Vec<u8>, i: usize, a: u8, b: u8, c: u8, d4: u8) -> (r: Option<
    (Option<u32>, usize),
>)
    requires
        i <= s@.len(),
    ensures
        match r {
            Some(p) => stat_term_at(s@, i as nat, seq![a, b, c, d4]) == Some((p.0, p.1 as nat))
                && i <= p.1 <= s@.len(),
            None => stat_term_at(s@, i as nat, seq![a, b, c, d4]) is None,
        },
{
    proof {
        vstd::std_specs::vec::axiom_spec_len(s);
    }
    let d: usize = digit_run_len_x(s, i);
    if d >= 1 && match4(s, i + d, a, b, c, d4) {
        match val_u32_x(s, i, i + d) {
            None => None,
            Some(v) => Some((Some(v), i + d + 4)),
        }
    } else {
        Some((None, i))
    }
}

fn stat_sep_x(s: &Vec<u8>, i: usize) -> (r: usize)
    requires
        i <= s@.len(),
    ensures
        r as nat == stat_sep_at(s@, i as nat),
        i <= r <= s@.len(),
{
    proof {
        vstd::std_specs::vec::axiom_spec_len(s);
    }
    if match3(s, i, 32, 47, 32) {
        i + 3
    } else {
        i
    }
}

/// The stat grammar over the remainder of an `"EVs: "` / `"IVs: "` line:
/// up to six terms in the order HP, Atk, Def, SpA, SpD, Spe, each optional,
/// `" / "` separators between them, then spaces.  `None` where the remainder
/// does not match (the line then sets nothing).
pub open spec fn spec_parse_stats(s: Seq<u8>) -> Option<Stats> {
    match stat_term_at(s, 0, seq![32u8, 72u8, 80u8]) {
        None => None,
        Some((hp, i1)) => match stat_term_at(s, stat_sep_at(s, i1), seq![32u8, 65u8, 116u8, 107u8]) {
            None => None,
            Some((atk, i2)) => match stat_term_at(
                s,
                stat_sep_at(s, i2),
                seq![32u8, 68u8, 101u8, 102u8],
            ) {
                None => None,
                Some((def, i3)) => match stat_term_at(
                    s,
                    stat_sep_at(s, i3),
                    seq![32u8, 83u8, 112u8, 65u8],
                ) {
                    None => None,
                    Some((spa, i4)) => match stat_term_at(
                        s,
                        stat_sep_at(s, i4),
                        seq![32u8, 83u8, 112u8, 68u8],
                    ) {
                        None => None,
                        Some((spd, i5)) => match stat_term_at(
                            s,
                            stat_sep_at(s, i5),
                            seq![32u8, 83u8, 112u8, 101u8],
                        ) {
                            None => None,
                            Some((spe, i6)) => if only_spaces_from(s, i6) {
                                Some(Stats { hp, atk, def, spa, spd, spe })
                            } else {
                                None
                            },
                        },
                    },
                },
            },
        },
    }
}

/// Applies the stat grammar to the remainder of a stat line.
pub fn parse_stats(s: &Vec<u8>) -> (r: Option<Stats>)
    ensures
        r == spec_parse_stats(s@),
{
    let (hp, i1) = match stat_term3_x(s, 0, 32, 72, 80) {
        None => {
            return None;
        },
        Some(p) => p,
    };
    let (atk, i2) = match stat_term4_x(s, stat_sep_x(s, i1), 32, 65, 116, 107) {
        None => {
            return None;
        },
        Some(p) => p,
    };
    let (def, i3) = match stat_term4_x(s, stat_sep_x(s, i2), 32, 68, 101, 102) {
        None => {
            return None;
        },
        Some(p) => p,
    };
    let (spa, i4) = match stat_term4_x(s, stat_sep_x(s, i3), 32, 83, 112, 65) {
        None => {
            return None;
        },
        Some(p) => p,
    };
    let (spd, i5) = match stat_term4_x(s, stat_sep_x(s, i4), 32, 83, 112, 68) {
        None => {
            return None;
        },
        Some(p) => p,
    };
    let (spe, i6) = match stat_term4_x(s, stat_sep_x(s, i5), 32, 83, 112, 101) {
        None => {
            return None;
        },
        Some(p) => p,
    };
    if only_spaces_from_x(s, i6) {
        Some(Stats { hp, atk, def, spa, spd, spe })
    } else {
        None
    }
}

} // verus!
