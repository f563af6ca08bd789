//! The read-only lookup tables the set builder resolves names against:
//! species, moves and items, each a list of entries keyed by a normalized
//! search key.  The tables are loaded once at startup by the surrounding
//! layer and never change; resolution is first-match by exact key.

use vstd::prelude::*;

use crate::bytes::{bytes_eq, copy_bytes};

verus! {

/// ASCII lowercasing of one byte.
pub open spec fn to_lower(c: u8) -> u8 {
    if 65 <= c && c <= 90 {
        (c + 32) as u8
    } else {
        c
    }
}

/// The search key of a species or move name: lowercase, spaces replaced by
/// hyphens.
pub open spec fn norm_name_key(s: Seq<u8>) -> Seq<u8> {
    s.map_values(
        |c: u8|
            if c == 32 {
                45u8
            } else {
                to_lower(c)
            },
    )
}

/// Computes the species/move search key.
pub fn make_name_key(s: &Vec<u8>) -> (r: Vec<u8>)
    ensures
        r@ == norm_name_key(s@),
{
    let mut out: Vec<u8> = Vec::new();
    let mut i: usize = 0;
    proof {
        assert(out@ =~= norm_name_key(s@.subrange(0, 0)));
    }
    while i < s.len()
        invariant
            i <= s@.len(),
            out@ == norm_name_key(s@.subrange(0, i as int)),
        decreases s@.len() - i,
    {
        let c: u8 = s[i];
        let d: u8 = if c == 32 {
            45
        } else if 65 <= c && c <= 90 {
            c + 32
        } else {
            c
        };
        out.push(d);
        i = i + 1;
        proof {
            assert(out@ =~= norm_name_key(s@.subrange(0, i as int)));
        }
    }
    proof {
        assert(s@.subrange(0, s@.len() as int) =~= s@);
    }
    out
}

/// The search key of an item name: spaces removed, then lowercase.
pub open spec fn norm_item_key(s: Seq<u8>) -> Seq<u8>
    decreases s.len(),
{
    if s.len() == 0 {
        s
    } else {
        norm_item_key(s.drop_last()) + (if s.last() == 32 {
            Seq::<u8>::empty()
        } else {
            seq![to_lower(s.last())]
        })
    }
}

/// Computes the item search key.
pub fn make_item_key(s: &Vec<u8>) -> (r: Vec<u8>)
    ensures
        r@ == norm_item_key(s@),
{
    let mut out: Vec<u8> = Vec::new();
    let mut i: usize = 0;
    proof {
        assert(out@ =~= norm_item_key(s@.subrange(0, 0)));
    }
    while i < s.len()
        invariant
            i <= s@.len(),
            out@ == norm_item_key(s@.subrange(0, i as int)),
        decreases s@.len() - i,
    {
        let c: u8 = s[i];
        if c != 32 {
            let d: u8 = if 65 <= c && c <= 90 {
                c + 32
            } else {
                c
            };
            out.push(d);
        }
        i = i + 1;
        proof {
            assert(s@.subrange(0, i as int).drop_last() =~= s@.subrange(0, i as int - 1));
            assert(out@ =~= norm_item_key(s@.subrange(0, i as int)));
        }
    }
    proof {
        assert(s@.subrange(0, s@.len() as int) =~= s@);
    }
    out
}

/// One species entry: its canonical search key, its primary type, and the
/// four image-path variants the image resolver can hand out.
pub struct MonEntry {
    pub key: Vec<u8>,
    pub type1: Vec<u8>,
    pub img: Vec<u8>,
    pub img_shiny: Vec<u8>,
    pub img_female: Vec<u8>,
    pub img_shiny_female: Vec<u8>,
}

pub ghost struct MonEntryView {
    pub key: Seq<u8>,
    pub type1: Seq<u8>,
    pub img: Seq<u8>,
    pub img_shiny: Seq<u8>,
    pub img_female: Seq<u8>,
    pub img_shiny_female: Seq<u8>,
}

impl View for MonEntry {
    type V = MonEntryView;

    open spec fn view(&self) -> MonEntryView {
        MonEntryView {
            key: self.key@,
            type1: self.type1@,
            img: self.img@,
            img_shiny: self.img_shiny@,
            img_female: self.img_female@,
            img_shiny_female: self.img_shiny_female@,
        }
    }
}

/// One move entry: search key and elemental type.
pub struct MoveEntry {
    pub key: Vec<u8>,
    pub type1: Vec<u8>,
}

pub ghost struct MoveEntryView {
    pub key: Seq<u8>,
    pub type1: Seq<u8>,
}

impl View for MoveEntry {
    type V = MoveEntryView;

    open spec fn view(&self) -> MoveEntryView {
        MoveEntryView { key: self.key@, type1: self.type1@ }
    }
}

/// One item entry: search key and image path.
pub struct ItemEntry {
    pub key: Vec<u8>,
    pub img: Vec<u8>,
}

pub ghost struct ItemEntryView {
    pub key: Seq<u8>,
    pub img: Seq<u8>,
}

impl View for ItemEntry {
    type V = ItemEntryView;

    open spec fn view(&self) -> ItemEntryView {
        ItemEntryView { key: self.key@, img: self.img@ }
    }
}

/// The three lookup tables.
pub struct Lookup {
    pub mons: Vec<MonEntry>,
    pub moves: Vec<MoveEntry>,
    pub items: Vec<ItemEntry>,
}

pub ghost struct LookupView {
    pub mons: Seq<MonEntryView>,
    pub moves: Seq<MoveEntryView>,
    pub items: Seq<ItemEntryView>,
}

impl View for Lookup {
    type V = LookupView;

    open spec fn view(&self) -> LookupView {
        LookupView {
            mons: self.mons@.map_values(|e: MonEntry| e@),
            moves: self.moves@.map_values(|e: MoveEntry| e@),
            items: self.items@.map_values(|e: ItemEntry| e@),
        }
    }
}

/// First species entry at or after `i` whose key is `k`.
pub open spec fn find_mon_from(tbl: Seq<MonEntryView>, k: Seq<u8>, i: nat) -> Option<MonEntryView>
    decreases tbl.len() - i,
{
    if i >= tbl.len() {
        None
    } else if tbl[i as int].key == k {
        Some(tbl[i as int])
    } else {
        find_mon_from(tbl, k, i + 1)
    }
}

/// First species entry whose key is `k`.
pub open spec fn find_mon(tbl: Seq<MonEntryView>, k: Seq<u8>) -> Option<MonEntryView> {
    find_mon_from(tbl, k, 0)
}

fn find_mon_x_from(t: &Vec<MonEntry>, k: &Vec<u8>, i: usize) -> (r: Option<usize>)
    requires
        i <= t@.len(),
    ensures
        match r {
            Some(j) => i <= j < t@.len() && find_mon_from(
                t@.map_values(|e: MonEntry| e@),
                k@,
                i as nat,
            ) == Some(t@[j as int]@),
            None => find_mon_from(t@.map_values(|e: MonEntry| e@), k@, i as nat) is None,
        },
    decreases t@.len() - i,
{
    if i < t.len() {
        if bytes_eq(&t[i].key, k) {
            Some(i)
        } else {
            find_mon_x_from(t, k, i + 1)
        }
    } else {
        None
    }
}

/// Looks a species key up; returns the index of the first match.
pub fn find_mon_x(lk: &Lookup, k: &Vec<u8>) -> (r: Option<usize>)
    ensures
        match r {
            Some(j) => j < lk.mons@.len() && find_mon(lk@.mons, k@) == Some(lk.mons@[j as int]@),
            None => find_mon(lk@.mons, k@) is None,
        },
{
    find_mon_x_from(&lk.mons, k, 0)
}

/// First move entry at or after `i` whose key is `k`.
pub open spec fn find_move_from(tbl: Seq<MoveEntryView>, k: Seq<u8>, i: nat) -> Option<
    MoveEntryView,
>
    decreases tbl.len() - i,
{
    if i >= tbl.len() {
        None
    } else if tbl[i as int].key == k {
        Some(tbl[i as int])
    } else {
        find_move_from(tbl, k, i + 1)
    }
}

/// First move entry whose key is `k`.
pub open spec fn find_move(tbl: Seq<MoveEntryView>, k: Seq<u8>) -> Option<MoveEntryView> {
    find_move_from(tbl, k, 0)
}

fn find_move_x_from(t: &Vec<MoveEntry>, k: &Vec<u8>, i: usize) -> (r: Option<usize>)
    requires
        i <= t@.len(),
    ensures
        match r {
            Some(j) => i <= j < t@.len() && find_move_from(
                t@.map_values(|e: MoveEntry| e@),
                k@,
                i as nat,
            ) == Some(t@[j as int]@),
            None => find_move_from(t@.map_values(|e: MoveEntry| e@), k@, i as nat) is None,
        },
    decreases t@.len() - i,
{
    if i < t.len() {
        if bytes_eq(&t[i].key, k) {
            Some(i)
        } else {
            find_move_x_from(t, k, i + 1)
        }
    } else {
        None
    }
}

/// Looks a move key up; returns the index of the first match.
pub fn find_move_x(lk: &Lookup, k: &Vec<u8>) -> (r: Option<usize>)
    ensures
        match r {
            Some(j) => j < lk.moves@.len() && find_move(lk@.moves, k@) == Some(
                lk.moves@[j as int]@,
            ),
            None => find_move(lk@.moves, k@) is None,
        },
{
    find_move_x_from(&lk.moves, k, 0)
}

/// First item entry at or after `i` whose key is `k`.
pub open spec fn find_item_from(tbl: Seq<ItemEntryView>, k: Seq<u8>, i: nat) -> Option<
    ItemEntryView,
>
    decreases tbl.len() - i,
{
    if i >= tbl.len() {
        None
    } else if tbl[i as int].key == k {
        Some(tbl[i as int])
    } else {
        find_item_from(tbl, k, i + 1)
    }
}

/// First item entry whose key is `k`.
pub open spec fn find_item(tbl: Seq<ItemEntryView>, k: Seq<u8>) -> Option<ItemEntryView> {
    find_item_from(tbl, k, 0)
}

fn find_item_x_from(t: &Vec<ItemEntry>, k: &Vec<u8>, i: usize) -> (r: Option<usize>)
    requires
        i <= t@.len(),
    ensures
        match r {
            Some(j) => i <= j < t@.len() && find_item_from(
                t@.map_values(|e: ItemEntry| e@),
                k@,
                i as nat,
            ) == Some(t@[j as int]@),
            None => find_item_from(t@.map_values(|e: ItemEntry| e@), k@, i as nat) is None,
        },
    decreases t@.len() - i,
{
    if i < t.len() {
        if bytes_eq(&t[i].key, k) {
            Some(i)
        } else {
            find_item_x_from(t, k, i + 1)
        }
    } else {
        None
    }
}

/// Looks an item key up; returns the index of the first match.
pub fn find_item_x(lk: &Lookup, k: &Vec<u8>) -> (r: Option<usize>)
    ensures
        match r {
            Some(j) => j < lk.items@.len() && find_item(lk@.items, k@) == Some(
                lk.items@[j as int]@,
            ),
            None => find_item(lk@.items, k@) is None,
        },
{
    find_item_x_from(&lk.items, k, 0)
}

/// The image path the resolver hands out for a species key and the shiny /
/// female flags: the matching variant of the found entry, or nothing where
/// the key is unknown.
pub open spec fn spec_get_image(
    mons: Seq<MonEntryView>,
    key: Seq<u8>,
    shiny: bool,
    female: bool,
) -> Seq<u8> {
    match find_mon(mons, key) {
        None => Seq::empty(),
        Some(e) => if shiny && female {
            e.img_shiny_female
        } else if shiny {
            e.img_shiny
        } else if female {
            e.img_female
        } else {
            e.img
        },
    }
}

/// Resolves the image path for a species key and the two variant flags.
pub fn get_image(lk: &Lookup, key: &Vec<u8>, shiny: bool, female: bool) -> (r: Vec<u8>)
    ensures
        r@ == spec_get_image(lk@.mons, key@, shiny, female),
{
    match find_mon_x(lk, key) {
        None => {
            let r: Vec<u8> = Vec::new();
            proof {
                assert(r@ =~= Seq::<u8>::empty());
            }
            r
        },
        Some(j) => {
            let e = &lk.mons[j];
            if shiny && female {
                copy_bytes(&e.img_shiny_female)
            } else if shiny {
                copy_bytes(&e.img_shiny)
            } else if female {
                copy_bytes(&e.img_female)
            } else {
                copy_bytes(&e.img)
            }
        },
    }
}

} // verus!
