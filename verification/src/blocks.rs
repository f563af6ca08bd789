//! Splitting a paste body into blocks and blocks into lines.
//!
//! A block boundary is a run of two or more consecutive line breaks; each
//! block is trimmed of surrounding whitespace and whitespace-only blocks are
//! dropped, with the relative order of the rest preserved.  Lines split at
//! `\n`, shedding the `\r` of a `\r\n` pair.  The shiny marker is a literal
//! substring check over a whole block.

use vstd::prelude::*;

use crate::bytes::{copy_range, is_space, spec_is_space};

verus! {

// ---------------------------------------------------------------------------
// trimming

/// First position at or after `i` that does not hold whitespace.
pub open spec fn first_non_space(s: Seq<u8>, i: nat) -> nat
    decreases s.len() - i,
{
    if i < s.len() && spec_is_space(s[i as int]) {
        first_non_space(s, i + 1)
    } else {
        i
    }
}

/// Position just past the last non-whitespace byte strictly before `j`.
pub open spec fn last_non_space(s: Seq<u8>, j: nat) -> nat
    decreases j,
{
    if j > 0 && spec_is_space(s[j as int - 1]) {
        last_non_space(s, (j - 1) as nat)
    } else {
        j
    }
}

/// `s` with leading and trailing whitespace removed.
pub open spec fn spec_trim(s: Seq<u8>) -> Seq<u8> {
    let a = first_non_space(s, 0);
    let b = last_non_space(s, s.len());
    if a <= b && b <= s.len() {
        s.subrange(a as int, b as int)
    } else {
        Seq::empty()
    }
}

proof fn lemma_first_non_space_bounds(s: Seq<u8>, i: nat)
    requires
        i <= s.len(),
    ensures
        i <= first_non_space(s, i) <= s.len(),
        first_non_space(s, i) < s.len() ==> !spec_is_space(s[first_non_space(s, i) as int]),
        forall|t: int| i <= t < first_non_space(s, i) ==> spec_is_space(s[t]),
    decreases s.len() - i,
{
    if i < s.len() && spec_is_space(s[i as int]) {
        lemma_first_non_space_bounds(s, i + 1);
    }
}

proof fn lemma_last_non_space_bounds(s: Seq<u8>, j: nat)
    requires
        j <= s.len(),
    ensures
        last_non_space(s, j) <= j,
        last_non_space(s, j) > 0 ==> !spec_is_space(s[last_non_space(s, j) as int - 1]),
        forall|t: int| last_non_space(s, j) <= t < j ==> spec_is_space(s[t]),
    decreases j,
{
    if j > 0 && spec_is_space(s[j as int - 1]) {
        lemma_last_non_space_bounds(s, (j - 1) as nat);
    }
}

/// What trimming promises: the result carries no whitespace at either end,
/// and it is empty exactly when `s` is whitespace throughout.
pub proof fn lemma_trim_props(s: Seq<u8>)
    ensures
        spec_trim(s).len() > 0 ==> !spec_is_space(spec_trim(s)[0]) && !spec_is_space(
            spec_trim(s)[spec_trim(s).len() - 1],
        ),
        spec_trim(s).len() == 0 <==> (forall|t: int| 0 <= t < s.len() ==> spec_is_space(s[t])),
{
    lemma_first_non_space_bounds(s, 0);
    lemma_last_non_space_bounds(s, s.len());
    let a = first_non_space(s, 0);
    let b = last_non_space(s, s.len());
    if a < s.len() {
        // there is a non-space byte, so the trimmed range keeps it
        if b <= a {
            assert(spec_is_space(s[a as int]));
        }
        assert(a < b);
        assert(!spec_is_space(s[b as int - 1]));
    } else {
        assert(forall|t: int| 0 <= t < s.len() ==> spec_is_space(s[t]));
    }
}

fn first_non_space_x(s: &Vec<u8>, i: usize) -> (r: usize)
    requires
        i <= s@.len(),
    ensures
        r as nat == first_non_space(s@, i as nat),
        i <= r <= s@.len(),
    decreases s@.len() - i,
{
    if i < s.len() && is_space(s[i]) {
        first_non_space_x(s, i + 1)
    } else {
        i
    }
}

fn last_non_space_x(s: &Vec<u8>, j: usize) -> (r: usize)
    requires
        j <= s@.len(),
    ensures
        r as nat == last_non_space(s@, j as nat),
        r <= j,
    decreases j,
{
    if j > 0 && is_space(s[j - 1]) {
        last_non_space_x(s, j - 1)
    } else {
        j
    }
}

/// Removes leading and trailing whitespace.
pub fn trim(s: &Vec<u8>) -> (r: Vec<u8>)
    ensures
        r@ == spec_trim(s@),
{
    let a: usize = first_non_space_x(s, 0);
    let b: usize = last_non_space_x(s, s.len());
    if a <= b {
        copy_range(s, a, b)
    } else {
        let r: Vec<u8> = Vec::new();
        proof {
            assert(r@ =~= Seq::<u8>::empty());
        }
        r
    }
}

// ---------------------------------------------------------------------------
// blocks

/// First position at or after `i` where a run of two or more line breaks
/// starts, or the end of `s`: the end of the segment that begins at `i`.
pub open spec fn seg_end(s: Seq<u8>, i: nat) -> nat
    decreases s.len() - i,
{
    if i < s.len() {
        if s[i as int] == 10 && i + 1 < s.len() && s[i as int + 1] == 10 {
            i
        } else {
            seg_end(s, i + 1)
        }
    } else {
        s.len()
    }
}

/// Length of the run of line breaks starting at `i`.
pub open spec fn nl_run_len(s: Seq<u8>, i: nat) -> nat
    decreases s.len() - i,
{
    if i < s.len() && s[i as int] == 10 {
        1 + nl_run_len(s, i + 1)
    } else {
        0
    }
}

proof fn lemma_seg_end_bounds(s: Seq<u8>, i: nat)
    requires
        i <= s.len(),
    ensures
        i <= seg_end(s, i) <= s.len(),
    decreases s.len() - i,
{
    if i < s.len() && !(s[i as int] == 10 && i + 1 < s.len() && s[i as int + 1] == 10) {
        lemma_seg_end_bounds(s, i + 1);
    }
}

proof fn lemma_nl_run_len_bounds(s: Seq<u8>, i: nat)
    requires
        i <= s.len(),
    ensures
        i + nl_run_len(s, i) <= s.len(),
    decreases s.len() - i,
{
    if i < s.len() && s[i as int] == 10 {
        lemma_nl_run_len_bounds(s, i + 1);
    }
}

/// The trimmed, non-empty blocks of `s` from position `i` on, in order.
pub open spec fn blocks_from(s: Seq<u8>, i: nat) -> Seq<Seq<u8>>
    decreases s.len() - i,
    via blocks_from_dec
{
    if i >= s.len() {
        Seq::empty()
    } else {
        let e = seg_end(s, i);
        let blk = spec_trim(s.subrange(i as int, e as int));
        let rest = blocks_from(s, e + nl_run_len(s, e));
        if blk.len() == 0 {
            rest
        } else {
            seq![blk] + rest
        }
    }
}

#[via_fn]
proof fn blocks_from_dec(s: Seq<u8>, i: nat) {
    if i < s.len() {
        lemma_seg_end_bounds(s, i);
        let e = seg_end(s, i);
        lemma_nl_run_len_bounds(s, e);
        if e == i {
            if !(s[i as int] == 10 && i + 1 < s.len() && s[i as int + 1] == 10) {
                lemma_seg_end_bounds(s, i + 1);
            }
            assert(s[i as int] == 10 && i + 1 < s.len() && s[i as int + 1] == 10);
            assert(nl_run_len(s, i + 1) >= 1);
            assert(nl_run_len(s, i) >= 2);
        }
    }
}

/// The block decomposition of a whole paste body.
pub open spec fn spec_blocks(s: Seq<u8>) -> Seq<Seq<u8>> {
    blocks_from(s, 0)
}

/// Every block that splitting emits is non-empty and carries no whitespace
/// at either end; whitespace-only segments are the only ones dropped (a
/// dropped segment trims to nothing exactly when it is all whitespace, by
/// [`lemma_trim_props`]).  Order is preserved by construction: the blocks
/// sequence is built left to right over the segments.
pub proof fn lemma_blocks_wf(s: Seq<u8>, i: nat)
    requires
        i <= s.len(),
    ensures
        forall|k: int|
            0 <= k < blocks_from(s, i).len() ==> #[trigger] blocks_from(s, i)[k].len() > 0 && !spec_is_space(
                blocks_from(s, i)[k][0],
            ) && !spec_is_space(blocks_from(s, i)[k][blocks_from(s, i)[k].len() - 1]),
    decreases s.len() - i,
{
    if i < s.len() {
        lemma_seg_end_bounds(s, i);
        let e = seg_end(s, i);
        lemma_nl_run_len_bounds(s, e);
        let blk = spec_trim(s.subrange(i as int, e as int));
        lemma_trim_props(s.subrange(i as int, e as int));
        if e == i {
            if !(s[i as int] == 10 && i + 1 < s.len() && s[i as int + 1] == 10) {
                lemma_seg_end_bounds(s, i + 1);
            }
            assert(nl_run_len(s, i + 1) >= 1);
            assert(nl_run_len(s, i) >= 2);
        }
        lemma_blocks_wf(s, e + nl_run_len(s, e));
        if blk.len() > 0 {
            assert(blocks_from(s, i) == seq![blk] + blocks_from(s, e + nl_run_len(s, e)));
        }
    }
}

fn seg_end_x(s: &Vec<u8>, i: usize) -> (r: usize)
    requires
        i <= s@.len(),
    ensures
        r as nat == seg_end(s@, i as nat),
        i <= r <= s@.len(),
        r == i && i < s@.len() ==> i + 1 < s@.len() && s@[i as int] == 10 && s@[i as int + 1] == 10,
    decreases s@.len() - i,
{
    if i < s.len() {
        if s[i] == 10 && s.len() - i >= 2 && s[i + 1] == 10 {
            i
        } else {
            seg_end_x(s, i + 1)
        }
    } else {
        s.len()
    }
}

fn nl_run_len_x(s: &Vec<u8>, i: usize) -> (r: usize)
    requires
        i <= s@.len(),
    ensures
        r as nat == nl_run_len(s@, i as nat),
        i + r <= s@.len(),
    decreases s@.len() - i,
{
    if i < s.len() && s[i] == 10 {
        1 + nl_run_len_x(s, i + 1)
    } else {
        0
    }
}

/// Splits a paste body into its trimmed, non-empty blocks, in order.
pub fn split_blocks(s: &Vec<u8>) -> (r: Vec<Vec<u8>>)
    ensures
        r.deep_view() == spec_blocks(s@),
{
    let mut out: Vec<Vec<u8>> = Vec::new();
    let mut i: usize = 0;
    proof {
        assert(out.deep_view() =~= Seq::<Seq<u8>>::empty());
    }
    while i < s.len()
        invariant
            i <= s@.len(),
            blocks_from(s@, 0) == out.deep_view() + blocks_from(s@, i as nat),
        decreases s@.len() - i,
    {
        let ghost out0 = out.deep_view();
        let e: usize = seg_end_x(s, i);
        let seg = copy_range(s, i, e);
        let blk = trim(&seg);
        let run: usize = nl_run_len_x(s, e);
        let ghost next = e as nat + run as nat;
        proof {
            if e == i {
                assert(nl_run_len(s@, i as nat + 1) >= 1);
                assert(nl_run_len(s@, i as nat) >= 2);
            }
        }
        if blk.len() > 0 {
            let ghost blkv = blk@;
            out.push(blk);
            proof {
                assert(out.deep_view() =~~= out0.push(blkv));
                assert(out0 + (seq![blkv] + blocks_from(s@, next)) =~~= out0.push(blkv)
                    + blocks_from(s@, next));
            }
        }
        i = e + run;
    }
    proof {
        assert(out.deep_view() + blocks_from(s@, i as nat) =~= out.deep_view());
    }
    out
}

// ---------------------------------------------------------------------------
// lines

/// Length of the line starting at `i` (up to the next line break or the
/// end).
pub open spec fn line_len(s: Seq<u8>, i: nat) -> nat
    decreases s.len() - i,
{
    if i < s.len() && s[i as int] != 10 {
        1 + line_len(s, i + 1)
    } else {
        0
    }
}

proof fn lemma_line_len_bounds(s: Seq<u8>, i: nat)
    requires
        i <= s.len(),
    ensures
        i + line_len(s, i) <= s.len(),
    decreases s.len() - i,
{
    if i < s.len() && s[i as int] != 10 {
        lemma_line_len_bounds(s, i + 1);
    }
}

/// A line that ended in `\r\n` sheds the `\r`.
pub open spec fn strip_cr(l: Seq<u8>) -> Seq<u8> {
    if l.len() > 0 && l[l.len() - 1] == 13 {
        l.drop_last()
    } else {
        l
    }
}

/// The lines of `s` from position `i` on: split at `\n`, a terminator
/// rather than a separator, with `\r\n` endings shed.
pub open spec fn lines_from(s: Seq<u8>, i: nat) -> Seq<Seq<u8>>
    decreases s.len() - i,
    via lines_from_dec
{
    if i >= s.len() {
        Seq::empty()
    } else {
        let e = i + line_len(s, i);
        if e < s.len() {
            seq![strip_cr(s.subrange(i as int, e as int))] + lines_from(s, e + 1)
        } else {
            seq![s.subrange(i as int, s.len() as int)]
        }
    }
}

#[via_fn]
proof fn lines_from_dec(s: Seq<u8>, i: nat) {
    if i < s.len() {
        lemma_line_len_bounds(s, i);
    }
}

/// The lines of a whole block.
pub open spec fn spec_lines(s: Seq<u8>) -> Seq<Seq<u8>> {
    lines_from(s, 0)
}

fn strip_cr_x(l: Vec<u8>) -> (r: Vec<u8>)
    ensures
        r@ == strip_cr(l@),
{
    let mut l = l;
    if l.len() > 0 && l[l.len() - 1] == 13 {
        let _last: u8 = match l.pop() {
            Some(c) => c,
            None => 0,
        };
        l
    } else {
        l
    }
}

/// Splits a block into its lines.
pub fn split_lines(s: &Vec<u8>) -> (r: Vec<Vec<u8>>)
    ensures
        r.deep_view() == spec_lines(s@),
{
    let mut out: Vec<Vec<u8>> = Vec::new();
    let mut i: usize = 0;
    proof {
        assert(out.deep_view() =~= Seq::<Seq<u8>>::empty());
    }
    while i < s.len()
        invariant
            i <= s@.len(),
            lines_from(s@, 0) == out.deep_view() + lines_from(s@, i as nat),
        decreases s@.len() - i,
    {
        let ghost out0 = out.deep_view();
        let mut e: usize = i;
        while e < s.len() && s[e] != 10
            invariant
                i <= e <= s@.len(),
                line_len(s@, i as nat) == e - i + line_len(s@, e as nat),
            decreases s@.len() - e,
        {
            e = e + 1;
        }
        proof {
            assert(line_len(s@, e as nat) == 0);
        }
        if e < s.len() {
            let line = strip_cr_x(copy_range(s, i, e));
            let ghost lv = line@;
            out.push(line);
            proof {
                assert(out.deep_view() =~~= out0.push(lv));
                assert(out0 + (seq![lv] + lines_from(s@, e as nat + 1)) =~~= out0.push(lv)
                    + lines_from(s@, e as nat + 1));
            }
            i = e + 1;
        } else {
            let line = copy_range(s, i, e);
            let ghost lv = line@;
            out.push(line);
            proof {
                assert(out.deep_view() =~~= out0.push(lv));
                assert(out0 + seq![lv] =~~= out0.push(lv));
                assert(lines_from(s@, i as nat) == seq![lv]);
            }
            i = e;
            proof {
                assert(lines_from(s@, i as nat) =~= Seq::<Seq<u8>>::empty()) by {
                    assert(i >= s@.len());
                }
            }
            return out;
        }
    }
    proof {
        assert(out.deep_view() + lines_from(s@, i as nat) =~= out.deep_view());
    }
    out
}

// ---------------------------------------------------------------------------
// the shiny marker

/// The literal `"Shiny: Yes"`.
pub open spec fn shiny_lit() -> Seq<u8> {
    seq![83u8, 104u8, 105u8, 110u8, 121u8, 58u8, 32u8, 89u8, 101u8, 115u8]
}

/// The marker stands somewhere in `s`.
pub open spec fn contains_shiny(s: Seq<u8>) -> bool {
    exists|k: int| 0 <= k <= s.len() - 10 && #[trigger] s.subrange(k, k + 10) == shiny_lit()
}

fn shiny_at(s: &Vec<u8>, k: usize) -> (r: bool)
    requires
        k + 10 <= s@.len(),
    ensures
        r == (s@.subrange(k as int, k as int + 10) == shiny_lit()),
{
    proof {
        vstd::std_specs::vec::axiom_spec_len(s);
    }
    let m = s[k] == 83 && s[k + 1] == 104 && s[k + 2] == 105 && s[k + 3] == 110 && s[k + 4] == 121
        && s[k + 5] == 58 && s[k + 6] == 32 && s[k + 7] == 89 && s[k + 8] == 101 && s[k + 9]
        == 115;
    proof {
        let sub = s@.subrange(k as int, k as int + 10);
        if m {
            assert(sub =~= shiny_lit());
        } else if sub == shiny_lit() {
            assert(s@[k as int] == sub[0]);
            assert(s@[k as int + 1] == sub[1]);
            assert(s@[k as int + 2] == sub[2]);
            assert(s@[k as int + 3] == sub[3]);
            assert(s@[k as int + 4] == sub[4]);
            assert(s@[k as int + 5] == sub[5]);
            assert(s@[k as int + 6] == sub[6]);
            assert(s@[k as int + 7] == sub[7]);
            assert(s@[k as int + 8] == sub[8]);
            assert(s@[k as int + 9] == sub[9]);
        }
    }
    m
}

/// Whether a block selects the shiny image variant: the literal marker
/// stands somewhere in it.
pub fn has_shiny(s: &Vec<u8>) -> (r: bool)
    ensures
        r == contains_shiny(s@),
{
    if s.len() < 10 {
        return false;
    }
    let mut k: usize = 0;
    while k <= s.len() - 10
        invariant
            s@.len() >= 10,
            k <= s@.len() - 10 + 1,
            forall|t: int| 0 <= t < k ==> #[trigger] s@.subrange(t, t + 10) != shiny_lit(),
        decreases s@.len() - k,
    {
        if shiny_at(s, k) {
            return true;
        }
        k = k + 1;
    }
    false
}

} // verus!
