//! The record codec: a paste record is stored as one byte blob.
//!
//! Wire layout, in fixed order and little-endian byte order:
//! `id` (8 bytes), then `title`, `author` and `notes` each as an 8-byte
//! length prefix followed by that many raw bytes, then `rental` with a 1-byte
//! length prefix, then `paste` and `format` again with 8-byte prefixes.
//! The decoder rejects a buffer with trailing bytes after the last field, so
//! a buffer decodes successfully exactly when it is the encoding of a record.

use vstd::arithmetic::div_mod::{lemma_fundamental_div_mod, lemma_multiply_divide_lt};
use vstd::prelude::*;

use crate::bytes::copy_range;

verus! {

/// A stored paste record.  `id` 0 means "unassigned, the store will pick
/// one"; the six remaining fields are arbitrary byte strings, preserved
/// exactly by the codec.
#[derive(Debug, Clone, PartialEq)]
pub struct Paste {
    pub id: u64,
    pub title: Vec<u8>,
    pub author: Vec<u8>,
    pub notes: Vec<u8>,
    pub rental: Vec<u8>,
    pub paste: Vec<u8>,
    pub format: Vec<u8>,
}

/// The mathematical value of a [`Paste`].
pub ghost struct PasteView {
    pub id: u64,
    pub title: Seq<u8>,
    pub author: Seq<u8>,
    pub notes: Seq<u8>,
    pub rental: Seq<u8>,
    pub paste: Seq<u8>,
    pub format: Seq<u8>,
}

impl View for Paste {
    type V = PasteView;

    open spec fn view(&self) -> PasteView {
        PasteView {
            id: self.id,
            title: self.title@,
            author: self.author@,
            notes: self.notes@,
            rental: self.rental@,
            paste: self.paste@,
            format: self.format@,
        }
    }
}

#[derive(Clone, Copy, Debug, PartialEq, Eq, Structural)]
pub enum CodecError {
    /// On encode: the rental code is longer than its 1-byte length prefix
    /// can state (255 bytes).
    RentalTooLong,
    /// On decode: the buffer ends before a declared count is satisfied, or
    /// bytes trail the final field.
    MalformedRecord,
}

/// The value of a little-endian byte string.
pub open spec fn le_val(s: Seq<u8>) -> nat
    decreases s.len(),
{
    if s.len() == 0 {
        0
    } else {
        s[0] as nat + 256 * le_val(s.drop_first())
    }
}

/// 256 to the `k`-th power: the number of values a `k`-byte field can take.
pub open spec fn pow256(k: nat) -> nat
    decreases k,
{
    if k == 0 {
        1
    } else {
        256 * pow256((k - 1) as nat)
    }
}

/// The `k`-byte little-endian encoding of `n` (mod 256^k).
pub open spec fn le_bytes(n: nat, k: nat) -> Seq<u8>
    decreases k,
{
    if k == 0 {
        Seq::<u8>::empty()
    } else {
        seq![(n % 256) as u8] + le_bytes(n / 256, (k - 1) as nat)
    }
}

pub proof fn lemma_le_bytes_len(n: nat, k: nat)
    ensures
        le_bytes(n, k).len() == k,
    decreases k,
{
    if k > 0 {
        lemma_le_bytes_len(n / 256, (k - 1) as nat);
    }
}

pub proof fn lemma_pow256_8()
    ensures
        pow256(8) == 0x1_0000_0000_0000_0000,
{
    reveal_with_fuel(pow256, 9);
}

pub proof fn lemma_le_val_bound(s: Seq<u8>)
    ensures
        le_val(s) < pow256(s.len()),
    decreases s.len(),
{
    if s.len() == 0 {
    } else {
        lemma_le_val_bound(s.drop_first());
        assert(pow256(s.len()) == 256 * pow256((s.len() - 1) as nat));
    }
}

pub proof fn lemma_le_val_le_bytes(n: nat, k: nat)
    requires
        n < pow256(k),
    ensures
        le_val(le_bytes(n, k)) == n,
    decreases k,
{
    if k == 0 {
    } else {
        let rest = le_bytes(n / 256, (k - 1) as nat);
        let whole = seq![(n % 256) as u8] + rest;
        assert(whole.drop_first() =~= rest);
        assert(pow256(k) == 256 * pow256((k - 1) as nat));
        lemma_multiply_divide_lt(n as int, 256, pow256((k - 1) as nat) as int);
        lemma_le_val_le_bytes(n / 256, (k - 1) as nat);
        lemma_fundamental_div_mod(n as int, 256);
    }
}

/// One field with an 8-byte length prefix, read off the front of `s`:
/// the field and the remaining bytes, or `None` if `s` is too short.
pub open spec fn take_field64(s: Seq<u8>) -> Option<(Seq<u8>, Seq<u8>)> {
    if s.len() < 8 {
        None
    } else {
        let l = le_val(s.take(8));
        if s.len() - 8 < l {
            None
        } else {
            Some((s.subrange(8, 8 + l as int), s.skip(8 + l as int)))
        }
    }
}

/// One field with a 1-byte length prefix, read off the front of `s`.
pub open spec fn take_field8(s: Seq<u8>) -> Option<(Seq<u8>, Seq<u8>)> {
    if s.len() < 1 {
        None
    } else {
        let l = s[0] as nat;
        if s.len() - 1 < l {
            None
        } else {
            Some((s.subrange(1, 1 + l as int), s.skip(1 + l as int)))
        }
    }
}

/// The encoding of a record whose rental code fits its 1-byte prefix.
pub open spec fn spec_encode(p: PasteView) -> Seq<u8> {
    le_bytes(p.id as nat, 8) + le_bytes(p.title.len(), 8) + p.title + le_bytes(p.author.len(), 8)
        + p.author + le_bytes(p.notes.len(), 8) + p.notes + seq![p.rental.len() as u8] + p.rental
        + le_bytes(p.paste.len(), 8) + p.paste + le_bytes(p.format.len(), 8) + p.format
}

/// The record denoted by a buffer: fields in the fixed order, each consuming
/// exactly prefix plus declared count, with nothing left over; `None` where
/// the buffer is malformed.
pub open spec fn spec_decode(b: Seq<u8>) -> Option<PasteView> {
    if b.len() < 8 {
        None
    } else {
        let id = le_val(b.take(8)) as u64;
        match take_field64(b.skip(8)) {
            None => None,
            Some((title, r1)) => match take_field64(r1) {
                None => None,
                Some((author, r2)) => match take_field64(r2) {
                    None => None,
                    Some((notes, r3)) => match take_field8(r3) {
                        None => None,
                        Some((rental, r4)) => match take_field64(r4) {
                            None => None,
                            Some((paste, r5)) => match take_field64(r5) {
                                None => None,
                                Some((format, r6)) => if r6.len() == 0 {
                                    Some(
                                        PasteView {
                                            id,
                                            title,
                                            author,
                                            notes,
                                            rental,
                                            paste,
                                            format,
                                        },
                                    )
                                } else {
                                    None
                                },
                            },
                        },
                    },
                },
            },
        }
    }
}

/// Appends the 8-byte little-endian encoding of `n`.
fn push_u64_le(out: &mut Vec<u8>, n: u64)
    ensures
        final(out)@ == old(out)@ + le_bytes(n as nat, 8),
{
    let mut m: u64 = n;
    out.push((m % 256) as u8);
    m = m / 256;
    out.push((m % 256) as u8);
    m = m / 256;
    out.push((m % 256) as u8);
    m = m / 256;
    out.push((m % 256) as u8);
    m = m / 256;
    out.push((m % 256) as u8);
    m = m / 256;
    out.push((m % 256) as u8);
    m = m / 256;
    out.push((m % 256) as u8);
    m = m / 256;
    out.push((m % 256) as u8);
    proof {
        reveal_with_fuel(le_bytes, 9);
        assert(out@ =~= old(out)@ + le_bytes(n as nat, 8));
    }
}

/// Appends a copy of `f`.
fn push_bytes(out: &mut Vec<u8>, f: &Vec<u8>)
    ensures
        final(out)@ == old(out)@ + f@,
{
    let mut i: usize = 0;
    while i < f.len()
        invariant
            i <= f@.len(),
            out@ == old(out)@ + f@.subrange(0, i as int),
        decreases f@.len() - i,
    {
        out.push(f[i]);
        i = i + 1;
        proof {
            assert(old(out)@ + f@.subrange(0, i as int) =~= (old(out)@ + f@.subrange(
                0,
                i as int - 1,
            )).push(f@[i as int - 1]));
        }
    }
    proof {
        assert(f@.subrange(0, f@.len() as int) =~= f@);
    }
}

/// Appends one 8-byte-prefixed field.
fn push_field64(out: &mut Vec<u8>, f: &Vec<u8>)
    ensures
        final(out)@ == old(out)@ + le_bytes(f@.len(), 8) + f@,
{
    push_u64_le(out, f.len() as u64);
    push_bytes(out, f);
    proof {
        assert(out@ =~= old(out)@ + le_bytes(f@.len(), 8) + f@);
    }
}

/// Encodes a record to its byte blob.  Fails, rather than truncating the
/// stored length prefix, when the rental code exceeds 255 bytes.
pub fn encode(p: &Paste) -> (r: Result<Vec<u8>, CodecError>)
    ensures
        match r {
            Ok(bytes) => p.rental@.len() <= 255 && bytes@ == spec_encode(p@),
            Err(e) => e == CodecError::RentalTooLong && p.rental@.len() > 255,
        },
{
    if p.rental.len() > 255 {
        return Err(CodecError::RentalTooLong);
    }
    let mut out: Vec<u8> = Vec::new();
    push_u64_le(&mut out, p.id);
    push_field64(&mut out, &p.title);
    push_field64(&mut out, &p.author);
    push_field64(&mut out, &p.notes);
    out.push(p.rental.len() as u8);
    push_bytes(&mut out, &p.rental);
    push_field64(&mut out, &p.paste);
    push_field64(&mut out, &p.format);
    proof {
        assert(out@ =~= spec_encode(p@));
    }
    Ok(out)
}

/// Reads the 8-byte little-endian integer at `off`.
fn read_u64_le(b: &Vec<u8>, off: usize) -> (r: u64)
    requires
        off + 8 <= b@.len(),
    ensures
        r as nat == le_val(b@.subrange(off as int, off as int + 8)),
{
    let total: usize = b.len();
    let mut v: u64 = b[off + 7] as u64;
    v = v * 256 + (b[off + 6] as u64);
    v = v * 256 + (b[off + 5] as u64);
    v = v * 256 + (b[off + 4] as u64);
    v = v * 256 + (b[off + 3] as u64);
    v = v * 256 + (b[off + 2] as u64);
    v = v * 256 + (b[off + 1] as u64);
    v = v * 256 + (b[off] as u64);
    proof {
        let o = off as int;
        reveal_with_fuel(le_val, 9);
        assert(b@.subrange(o, o + 8).drop_first() =~= b@.subrange(o + 1, o + 8));
        assert(b@.subrange(o + 1, o + 8).drop_first() =~= b@.subrange(o + 2, o + 8));
        assert(b@.subrange(o + 2, o + 8).drop_first() =~= b@.subrange(o + 3, o + 8));
        assert(b@.subrange(o + 3, o + 8).drop_first() =~= b@.subrange(o + 4, o + 8));
        assert(b@.subrange(o + 4, o + 8).drop_first() =~= b@.subrange(o + 5, o + 8));
        assert(b@.subrange(o + 5, o + 8).drop_first() =~= b@.subrange(o + 6, o + 8));
        assert(b@.subrange(o + 6, o + 8).drop_first() =~= b@.subrange(o + 7, o + 8));
        assert(b@.subrange(o + 7, o + 8).drop_first() =~= Seq::<u8>::empty());
    }
    v
}

/// Reads one 8-byte-prefixed field at `off`; on success returns the field
/// and the offset just past it.
fn read_field64(b: &Vec<u8>, off: usize) -> (r: Option<(Vec<u8>, usize)>)
    requires
        off <= b@.len(),
    ensures
        match r {
            Some(p) => off <= p.1 <= b@.len() && take_field64(b@.skip(off as int)) == Some(
                (p.0@, b@.skip(p.1 as int)),
            ),
            None => take_field64(b@.skip(off as int)) is None,
        },
{
    proof {
        assert(b@.skip(off as int).len() == b@.len() - off);
    }
    if b.len() - off < 8 {
        return None;
    }
    let l: u64 = read_u64_le(b, off);
    proof {
        assert(b@.skip(off as int).take(8) =~= b@.subrange(off as int, off as int + 8));
    }
    let rem: usize = b.len() - off - 8;
    if l > rem as u64 {
        return None;
    }
    let n: usize = l as usize;
    let f = copy_range(b, off + 8, off + 8 + n);
    proof {
        assert(b@.skip(off as int).subrange(8, 8 + n as int) =~= b@.subrange(
            off as int + 8,
            off as int + 8 + n as int,
        ));
        assert(b@.skip(off as int).skip(8 + n as int) =~= b@.skip(off as int + 8 + n as int));
    }
    Some((f, off + 8 + n))
}

/// Reads the 1-byte-prefixed rental field at `off`.
fn read_field8(b: &Vec<u8>, off: usize) -> (r: Option<(Vec<u8>, usize)>)
    requires
        off <= b@.len(),
    ensures
        match r {
            Some(p) => off <= p.1 <= b@.len() && take_field8(b@.skip(off as int)) == Some(
                (p.0@, b@.skip(p.1 as int)),
            ),
            None => take_field8(b@.skip(off as int)) is None,
        },
{
    proof {
        assert(b@.skip(off as int).len() == b@.len() - off);
    }
    if b.len() - off < 1 {
        return None;
    }
    let n: usize = b[off] as usize;
    let rem: usize = b.len() - off - 1;
    if n > rem {
        return None;
    }
    let f = copy_range(b, off + 1, off + 1 + n);
    proof {
        assert(b@.skip(off as int).subrange(1, 1 + n as int) =~= b@.subrange(
            off as int + 1,
            off as int + 1 + n as int,
        ));
        assert(b@.skip(off as int).skip(1 + n as int) =~= b@.skip(off as int + 1 + n as int));
    }
    Some((f, off + 1 + n))
}

/// Decodes a byte blob back to a record.  Succeeds exactly on the buffers
/// that [`spec_decode`] accepts: fields in order, counts satisfied, nothing
/// trailing.
pub fn decode(b: &Vec<u8>) -> (r: Result<Paste, CodecError>)
    ensures
        match r {
            Ok(p) => spec_decode(b@) == Some(p@),
            Err(e) => e == CodecError::MalformedRecord && spec_decode(b@) is None,
        },
{
    if b.len() < 8 {
        return Err(CodecError::MalformedRecord);
    }
    let id: u64 = read_u64_le(b, 0);
    proof {
        assert(b@.subrange(0, 8) =~= b@.take(8));
        lemma_le_val_bound(b@.take(8));
        lemma_pow256_8();
    }
    let (title, off1) = match read_field64(b, 8) {
        Some(x) => x,
        None => {
            return Err(CodecError::MalformedRecord);
        },
    };
    let (author, off2) = match read_field64(b, off1) {
        Some(x) => x,
        None => {
            return Err(CodecError::MalformedRecord);
        },
    };
    let (notes, off3) = match read_field64(b, off2) {
        Some(x) => x,
        None => {
            return Err(CodecError::MalformedRecord);
        },
    };
    let (rental, off4) = match read_field8(b, off3) {
        Some(x) => x,
        None => {
            return Err(CodecError::MalformedRecord);
        },
    };
    let (paste, off5) = match read_field64(b, off4) {
        Some(x) => x,
        None => {
            return Err(CodecError::MalformedRecord);
        },
    };
    let (format, off6) = match read_field64(b, off5) {
        Some(x) => x,
        None => {
            return Err(CodecError::MalformedRecord);
        },
    };
    if off6 != b.len() {
        proof {
            assert(b@.skip(off6 as int).len() != 0);
        }
        return Err(CodecError::MalformedRecord);
    }
    let p = Paste { id, title, author, notes, rental, paste, format };
    proof {
        assert(b@.skip(off6 as int).len() == 0);
        assert(spec_decode(b@) == Some(p@));
    }
    Ok(p)
}

/// Splitting an 8-byte-prefixed field off a buffer that starts with one
/// returns exactly that field and the rest.
pub proof fn lemma_take_field64(f: Seq<u8>, rest: Seq<u8>)
    requires
        f.len() < 0x1_0000_0000_0000_0000,
    ensures
        take_field64(le_bytes(f.len(), 8) + f + rest) == Some((f, rest)),
{
    let s = le_bytes(f.len(), 8) + f + rest;
    lemma_le_bytes_len(f.len(), 8);
    assert(s.take(8) =~= le_bytes(f.len(), 8));
    lemma_pow256_8();
    lemma_le_val_le_bytes(f.len(), 8);
    assert(s.subrange(8, 8 + f.len() as int) =~= f);
    assert(s.skip(8 + f.len() as int) =~= rest);
}

/// The 1-byte-prefixed analogue for the rental field.
pub proof fn lemma_take_field8(f: Seq<u8>, rest: Seq<u8>)
    requires
        f.len() <= 255,
    ensures
        take_field8(seq![f.len() as u8] + f + rest) == Some((f, rest)),
{
    let s = seq![f.len() as u8] + f + rest;
    assert(s[0] == f.len() as u8);
    assert(s.subrange(1, 1 + f.len() as int) =~= f);
    assert(s.skip(1 + f.len() as int) =~= rest);
}

/// Round trip: decoding the encoding of any record gives the record back,
/// for every combination of field byte strings whose lengths the wire format
/// can carry (rental at most 255 bytes, every field shorter than 2^64).
#[verifier::rlimit(100)]
pub proof fn lemma_round_trip(p: PasteView)
    requires
        p.rental.len() <= 255,
        p.title.len() < 0x1_0000_0000_0000_0000,
        p.author.len() < 0x1_0000_0000_0000_0000,
        p.notes.len() < 0x1_0000_0000_0000_0000,
        p.paste.len() < 0x1_0000_0000_0000_0000,
        p.format.len() < 0x1_0000_0000_0000_0000,
    ensures
        spec_decode(spec_encode(p)) == Some(p),
{
    let e = spec_encode(p);
    lemma_le_bytes_len(p.id as nat, 8);
    lemma_le_bytes_len(p.title.len(), 8);
    lemma_le_bytes_len(p.author.len(), 8);
    lemma_le_bytes_len(p.notes.len(), 8);
    lemma_le_bytes_len(p.paste.len(), 8);
    lemma_le_bytes_len(p.format.len(), 8);
    lemma_pow256_8();

    assert(e.take(8) =~= le_bytes(p.id as nat, 8));
    lemma_le_val_le_bytes(p.id as nat, 8);

    let rest1 = le_bytes(p.author.len(), 8) + p.author + le_bytes(p.notes.len(), 8) + p.notes
        + seq![p.rental.len() as u8] + p.rental + le_bytes(p.paste.len(), 8) + p.paste + le_bytes(
        p.format.len(),
        8,
    ) + p.format;
    assert(e.skip(8) =~= le_bytes(p.title.len(), 8) + p.title + rest1);
    lemma_take_field64(p.title, rest1);

    let rest2 = le_bytes(p.notes.len(), 8) + p.notes + seq![p.rental.len() as u8] + p.rental
        + le_bytes(p.paste.len(), 8) + p.paste + le_bytes(p.format.len(), 8) + p.format;
    assert(rest1 =~= le_bytes(p.author.len(), 8) + p.author + rest2);
    lemma_take_field64(p.author, rest2);

    let rest3 = seq![p.rental.len() as u8] + p.rental + le_bytes(p.paste.len(), 8) + p.paste
        + le_bytes(p.format.len(), 8) + p.format;
    assert(rest2 =~= le_bytes(p.notes.len(), 8) + p.notes + rest3);
    lemma_take_field64(p.notes, rest3);

    let rest4 = le_bytes(p.paste.len(), 8) + p.paste + le_bytes(p.format.len(), 8) + p.format;
    assert(rest3 =~= seq![p.rental.len() as u8] + p.rental + rest4);
    lemma_take_field8(p.rental, rest4);

    let rest5 = le_bytes(p.format.len(), 8) + p.format;
    assert(rest4 =~= le_bytes(p.paste.len(), 8) + p.paste + rest5);
    lemma_take_field64(p.paste, rest5);

    let rest6 = Seq::<u8>::empty();
    assert(rest5 =~= le_bytes(p.format.len(), 8) + p.format + rest6);
    lemma_take_field64(p.format, rest6);
}

} // verus!
