//! The set builder: combines the block/line grammars with the lookup tables
//! into the ordered sequence of display entities for a paste body.
//!
//! Per block: a block whose first line fails the header grammar is free
//! text, verbatim.  Otherwise the remaining lines are classified in order —
//! move line, `"EVs: "` stat line, `"IVs: "` stat line, anything else to the
//! "other" list — with effort values defaulting to 0 and individual values
//! left unset.  The shiny marker anywhere in the block, together with the
//! header's gender, picks the image variant.

use vstd::prelude::*;

use crate::blocks::{contains_shiny, has_shiny, spec_blocks, spec_lines, split_blocks, split_lines};
use crate::bytes::{copy_bytes, copy_range};
use crate::grammar::{
    matches_at, spec_parse_header, spec_parse_move, spec_parse_stats, Gender, Header, HeaderView,
    Stats, parse_header, parse_move, parse_stats,
};
use crate::lookup::{
    find_item, find_item_x, find_mon, find_mon_x, find_move, find_move_x, get_image,
    make_item_key, make_name_key, norm_item_key, norm_name_key, spec_get_image, Lookup,
    LookupView, MoveEntryView,
};

verus! {

/// One resolved move of a set: display name, elemental type (empty where
/// the lookup knows no such move) and a reserved numeric id, always 0.
pub struct MoveInfo {
    pub name: Vec<u8>,
    pub type1: Vec<u8>,
    pub id: u32,
}

#[verifier::ext_equal]
pub ghost struct MoveInfoView {
    pub name: Seq<u8>,
    pub type1: Seq<u8>,
    pub id: u32,
}

impl View for MoveInfo {
    type V = MoveInfoView;

    open spec fn view(&self) -> MoveInfoView {
        MoveInfoView { name: self.name@, type1: self.type1@, id: self.id }
    }
}

/// One parsed roster member.
pub struct MonSet {
    pub name: Vec<u8>,
    pub search_name: Vec<u8>,
    pub image: Vec<u8>,
    pub item: Vec<u8>,
    pub item_img: Vec<u8>,
    pub moves: Vec<MoveInfo>,
    pub type1: Vec<u8>,
    pub gender: Gender,
    pub other: Vec<Vec<u8>>,
    pub hp: u32,
    pub atk: u32,
    pub def: u32,
    pub spa: u32,
    pub spd: u32,
    pub spe: u32,
    pub hp_iv: Option<u32>,
    pub atk_iv: Option<u32>,
    pub def_iv: Option<u32>,
    pub spa_iv: Option<u32>,
    pub spd_iv: Option<u32>,
    pub spe_iv: Option<u32>,
}

#[verifier::ext_equal]
pub ghost struct MonSetView {
    pub name: Seq<u8>,
    pub search_name: Seq<u8>,
    pub image: Seq<u8>,
    pub item: Seq<u8>,
    pub item_img: Seq<u8>,
    pub moves: Seq<MoveInfoView>,
    pub type1: Seq<u8>,
    pub gender: Gender,
    pub other: Seq<Seq<u8>>,
    pub hp: u32,
    pub atk: u32,
    pub def: u32,
    pub spa: u32,
    pub spd: u32,
    pub spe: u32,
    pub hp_iv: Option<u32>,
    pub atk_iv: Option<u32>,
    pub def_iv: Option<u32>,
    pub spa_iv: Option<u32>,
    pub spd_iv: Option<u32>,
    pub spe_iv: Option<u32>,
}

impl View for MonSet {
    type V = MonSetView;

    open spec fn view(&self) -> MonSetView {
        MonSetView {
            name: self.name@,
            search_name: self.search_name@,
            image: self.image@,
            item: self.item@,
            item_img: self.item_img@,
            moves: self.moves@.map_values(|m: MoveInfo| m@),
            type1: self.type1@,
            gender: self.gender,
            other: self.other.deep_view(),
            hp: self.hp,
            atk: self.atk,
            def: self.def,
            spa: self.spa,
            spd: self.spd,
            spe: self.spe,
            hp_iv: self.hp_iv,
            atk_iv: self.atk_iv,
            def_iv: self.def_iv,
            spa_iv: self.spa_iv,
            spd_iv: self.spd_iv,
            spe_iv: self.spe_iv,
        }
    }
}

/// One entry of the parse result: a block that stayed opaque text, or a
/// parsed roster member, in source order.
pub enum Content {
    Text(Vec<u8>),
    Mon(MonSet),
}

#[verifier::ext_equal]
pub ghost enum ContentView {
    Text(Seq<u8>),
    Mon(MonSetView),
}

impl View for Content {
    type V = ContentView;

    open spec fn view(&self) -> ContentView {
        match self {
            Content::Text(t) => ContentView::Text(t@),
            Content::Mon(m) => ContentView::Mon(m@),
        }
    }
}

/// The `"EVs: "` prefix.
pub open spec fn evs_lit() -> Seq<u8> {
    seq![69u8, 86u8, 115u8, 58u8, 32u8]
}

/// The `"IVs: "` prefix.
pub open spec fn ivs_lit() -> Seq<u8> {
    seq![73u8, 86u8, 115u8, 58u8, 32u8]
}

/// The elemental type a move name resolves to; empty where unknown.
pub open spec fn move_type1(tbl: Seq<MoveEntryView>, k: Seq<u8>) -> Seq<u8> {
    match find_move(tbl, k) {
        Some(e) => e.type1,
        None => Seq::empty(),
    }
}

/// The running state of line classification: moves and other lines in
/// order, effort values (default 0), individual values (default unset).
#[verifier::ext_equal]
pub ghost struct BuildAcc {
    pub moves: Seq<MoveInfoView>,
    pub other: Seq<Seq<u8>>,
    pub hp: u32,
    pub atk: u32,
    pub def: u32,
    pub spa: u32,
    pub spd: u32,
    pub spe: u32,
    pub hp_iv: Option<u32>,
    pub atk_iv: Option<u32>,
    pub def_iv: Option<u32>,
    pub spa_iv: Option<u32>,
    pub spd_iv: Option<u32>,
    pub spe_iv: Option<u32>,
}

pub open spec fn acc_init() -> BuildAcc {
    BuildAcc {
        moves: Seq::empty(),
        other: Seq::empty(),
        hp: 0,
        atk: 0,
        def: 0,
        spa: 0,
        spd: 0,
        spe: 0,
        hp_iv: None,
        atk_iv: None,
        def_iv: None,
        spa_iv: None,
        spd_iv: None,
        spe_iv: None,
    }
}

/// A present term of an `"EVs: "` line overwrites that effort value; an
/// absent one keeps the running value.
pub open spec fn apply_evs(acc: BuildAcc, st: Stats) -> BuildAcc {
    BuildAcc {
        hp: st.hp.unwrap_or(acc.hp),
        atk: st.atk.unwrap_or(acc.atk),
        def: st.def.unwrap_or(acc.def),
        spa: st.spa.unwrap_or(acc.spa),
        spd: st.spd.unwrap_or(acc.spd),
        spe: st.spe.unwrap_or(acc.spe),
        ..acc
    }
}

/// A present term of an `"IVs: "` line sets that individual value; an
/// absent one leaves it as it was.
pub open spec fn apply_ivs(acc: BuildAcc, st: Stats) -> BuildAcc {
    BuildAcc {
        hp_iv: if st.hp is Some {
            st.hp
        } else {
            acc.hp_iv
        },
        atk_iv: if st.atk is Some {
            st.atk
        } else {
            acc.atk_iv
        },
        def_iv: if st.def is Some {
            st.def
        } else {
            acc.def_iv
        },
        spa_iv: if st.spa is Some {
            st.spa
        } else {
            acc.spa_iv
        },
        spd_iv: if st.spd is Some {
            st.spd
        } else {
            acc.spd_iv
        },
        spe_iv: if st.spe is Some {
            st.spe
        } else {
            acc.spe_iv
        },
        ..acc
    }
}

/// Classifies one line, in the fixed precedence: move line, `"EVs: "` line,
/// `"IVs: "` line, otherwise verbatim "other".  A stat line whose remainder
/// fails the stat grammar (or holds a value over 32 bits) sets nothing.
pub open spec fn apply_line(acc: BuildAcc, line: Seq<u8>, tbl: Seq<MoveEntryView>) -> BuildAcc {
    match spec_parse_move(line) {
        Some(name) => BuildAcc {
            moves: acc.moves.push(
                MoveInfoView { name, type1: move_type1(tbl, norm_name_key(name)), id: 0 },
            ),
            ..acc
        },
        None => if matches_at(line, 0, evs_lit()) {
            match spec_parse_stats(line.skip(5)) {
                Some(st) => apply_evs(acc, st),
                None => acc,
            }
        } else if matches_at(line, 0, ivs_lit()) {
            match spec_parse_stats(line.skip(5)) {
                Some(st) => apply_ivs(acc, st),
                None => acc,
            }
        } else {
            BuildAcc { other: acc.other.push(line), ..acc }
        },
    }
}

/// Folds [`apply_line`] over `lines[i..]`, strictly in order.
pub open spec fn apply_lines(
    acc: BuildAcc,
    lines: Seq<Seq<u8>>,
    i: nat,
    tbl: Seq<MoveEntryView>,
) -> BuildAcc
    decreases lines.len() - i,
{
    if i >= lines.len() {
        acc
    } else {
        apply_lines(apply_line(acc, lines[i as int], tbl), lines, i + 1, tbl)
    }
}

/// The set a recognized block denotes: the header's species resolved
/// against the species table, the held item against the item table, the
/// image variant picked by the shiny marker and the gender, and the
/// remaining lines folded in order.
pub open spec fn spec_build_set(block: Seq<u8>, h: HeaderView, lk: LookupView) -> MonSetView {
    let skey = norm_name_key(h.species);
    let (search_name, type1): (Seq<u8>, Seq<u8>) = match find_mon(lk.mons, skey) {
        Some(e) => (e.key, e.type1),
        None => (Seq::empty(), Seq::empty()),
    };
    let (item, item_img): (Seq<u8>, Seq<u8>) = match h.item {
        Some(it) => (
            it,
            match find_item(lk.items, norm_item_key(it)) {
                Some(e) => e.img,
                None => Seq::empty(),
            },
        ),
        None => (Seq::empty(), Seq::empty()),
    };
    let female = h.gender == Gender::Female;
    let image = spec_get_image(lk.mons, search_name, contains_shiny(block), female);
    let acc = apply_lines(acc_init(), spec_lines(block), 1, lk.moves);
    MonSetView {
        name: h.species,
        search_name,
        image,
        item,
        item_img,
        moves: acc.moves,
        type1,
        gender: h.gender,
        other: acc.other,
        hp: acc.hp,
        atk: acc.atk,
        def: acc.def,
        spa: acc.spa,
        spd: acc.spd,
        spe: acc.spe,
        hp_iv: acc.hp_iv,
        atk_iv: acc.atk_iv,
        def_iv: acc.def_iv,
        spa_iv: acc.spa_iv,
        spd_iv: acc.spd_iv,
        spe_iv: acc.spe_iv,
    }
}

/// What one block denotes: a set where its first line passes the header
/// grammar, the whole trimmed block as free text where it does not.
pub open spec fn spec_content_of_block(block: Seq<u8>, lk: LookupView) -> ContentView {
    let lines = spec_lines(block);
    if lines.len() == 0 {
        ContentView::Text(block)
    } else {
        match spec_parse_header(lines[0]) {
            None => ContentView::Text(block),
            Some(h) => ContentView::Mon(spec_build_set(block, h, lk)),
        }
    }
}

/// The detailed view of a whole paste body: one entry per block, in order.
pub open spec fn spec_parse_paste(text: Seq<u8>, lk: LookupView) -> Seq<ContentView> {
    spec_blocks(text).map_values(|b: Seq<u8>| spec_content_of_block(b, lk))
}

fn has_prefix5(s: &Vec<u8>, a: u8, b: u8, c: u8, d: u8, e: u8) -> (r: bool)
    ensures
        r == matches_at(s@, 0, seq![a, b, c, d, e]),
{
    let m = s.len() >= 5 && s[0] == a && s[1] == b && s[2] == c && s[3] == d && s[4] == e;
    proof {
        if m {
            assert(s@.subrange(0, 5) =~= seq![a, b, c, d, e]);
        } else if s@.len() >= 5 && s@.subrange(0, 5) == seq![a, b, c, d, e] {
            assert(s@[0] == seq![a, b, c, d, e][0]);
            assert(s@[1] == seq![a, b, c, d, e][1]);
            assert(s@[2] == seq![a, b, c, d, e][2]);
            assert(s@[3] == seq![a, b, c, d, e][3]);
            assert(s@[4] == seq![a, b, c, d, e][4]);
        }
    }
    m
}

spec fn acc_of(
    moves: Seq<MoveInfoView>,
    other: Seq<Seq<u8>>,
    hp: u32,
    atk: u32,
    def: u32,
    spa: u32,
    spd: u32,
    spe: u32,
    hp_iv: Option<u32>,
    atk_iv: Option<u32>,
    def_iv: Option<u32>,
    spa_iv: Option<u32>,
    spd_iv: Option<u32>,
    spe_iv: Option<u32>,
) -> BuildAcc {
    BuildAcc {
        moves,
        other,
        hp,
        atk,
        def,
        spa,
        spd,
        spe,
        hp_iv,
        atk_iv,
        def_iv,
        spa_iv,
        spd_iv,
        spe_iv,
    }
}

/// Builds the set of one recognized block from its trimmed bytes, its
/// parsed header and the lookup tables.
pub fn build_set(block: &Vec<u8>, h: Header, lk: &Lookup) -> (r: MonSet)
    ensures
        r@ == spec_build_set(block@, h@, lk@),
{
    let lines = split_lines(block);
    let skey = make_name_key(&h.species);
    let (search_name, type1): (Vec<u8>, Vec<u8>) = match find_mon_x(lk, &skey) {
        Some(j) => (copy_bytes(&lk.mons[j].key), copy_bytes(&lk.mons[j].type1)),
        None => (Vec::new(), Vec::new()),
    };
    let (item, item_img): (Vec<u8>, Vec<u8>) = match h.item {
        Some(it) => {
            let ikey = make_item_key(&it);
            let img: Vec<u8> = match find_item_x(lk, &ikey) {
                Some(j) => copy_bytes(&lk.items[j].img),
                None => Vec::new(),
            };
            (it, img)
        },
        None => (Vec::new(), Vec::new()),
    };
    let female = matches!(h.gender, Gender::Female);
    let shiny = has_shiny(block);
    let image = get_image(lk, &search_name, shiny, female);
    let mut moves: Vec<MoveInfo> = Vec::new();
    let mut other: Vec<Vec<u8>> = Vec::new();
    let mut hp: u32 = 0;
    let mut atk: u32 = 0;
    let mut def: u32 = 0;
    let mut spa: u32 = 0;
    let mut spd: u32 = 0;
    let mut spe: u32 = 0;
    let mut hp_iv: Option<u32> = None;
    let mut atk_iv: Option<u32> = None;
    let mut def_iv: Option<u32> = None;
    let mut spa_iv: Option<u32> = None;
    let mut spd_iv: Option<u32> = None;
    let mut spe_iv: Option<u32> = None;
    let ghost linesv = spec_lines(block@);
    let ghost tbl = lk@.moves;
    let mut i: usize = 1;
    proof {
        assert(moves@.map_values(|m: MoveInfo| m@) =~= Seq::<MoveInfoView>::empty());
        assert(other.deep_view() =~= Seq::<Seq<u8>>::empty());
        if linesv.len() == 0 {
            assert(apply_lines(acc_init(), linesv, 1, tbl) == acc_init());
        }
    }
    while i < lines.len()
        invariant
            1 <= i,
            lines.deep_view() == linesv,
            tbl == lk@.moves,
            apply_lines(
                acc_of(
                    moves@.map_values(|m: MoveInfo| m@),
                    other.deep_view(),
                    hp,
                    atk,
                    def,
                    spa,
                    spd,
                    spe,
                    hp_iv,
                    atk_iv,
                    def_iv,
                    spa_iv,
                    spd_iv,
                    spe_iv,
                ),
                linesv,
                i as nat,
                tbl,
            ) == apply_lines(acc_init(), linesv, 1, tbl),
        decreases lines@.len() - i,
    {
        let ghost acc_pre = acc_of(
            moves@.map_values(|m: MoveInfo| m@),
            other.deep_view(),
            hp,
            atk,
            def,
            spa,
            spd,
            spe,
            hp_iv,
            atk_iv,
            def_iv,
            spa_iv,
            spd_iv,
            spe_iv,
        );
        let ghost mv0 = moves@.map_values(|m: MoveInfo| m@);
        let ghost ot0 = other.deep_view();
        let li = &lines[i];
        proof {
            assert(li@ == linesv[i as int]);
        }
        match parse_move(li) {
            Some(name) => {
                let key = make_name_key(&name);
                let type1: Vec<u8> = match find_move_x(lk, &key) {
                    Some(j) => copy_bytes(&lk.moves[j].type1),
                    None => {
                        let v: Vec<u8> = Vec::new();
                        proof {
                            assert(v@ =~= Seq::<u8>::empty());
                        }
                        v
                    },
                };
                let ghost mv = MoveInfoView { name: name@, type1: type1@, id: 0u32 };
                moves.push(MoveInfo { name, type1, id: 0 });
                proof {
                    assert(moves@.map_values(|m: MoveInfo| m@) =~~= mv0.push(mv));
                    assert(apply_line(acc_pre, linesv[i as int], tbl) =~~= acc_of(
                        moves@.map_values(|m: MoveInfo| m@),
                        other.deep_view(),
                        hp,
                        atk,
                        def,
                        spa,
                        spd,
                        spe,
                        hp_iv,
                        atk_iv,
                        def_iv,
                        spa_iv,
                        spd_iv,
                        spe_iv,
                    ));
                }
            },
            None => {
                if has_prefix5(li, 69, 86, 115, 58, 32) {
                    let rest = copy_range(li, 5, li.len());
                    proof {
                        assert(rest@ =~= li@.skip(5));
                    }
                    match parse_stats(&rest) {
                        Some(st) => {
                            hp = match st.hp {
                                Some(v) => v,
                                None => hp,
                            };
                            atk = match st.atk {
                                Some(v) => v,
                                None => atk,
                            };
                            def = match st.def {
                                Some(v) => v,
                                None => def,
                            };
                            spa = match st.spa {
                                Some(v) => v,
                                None => spa,
                            };
                            spd = match st.spd {
                                Some(v) => v,
                                None => spd,
                            };
                            spe = match st.spe {
                                Some(v) => v,
                                None => spe,
                            };
                        },
                        None => {},
                    }
                } else if has_prefix5(li, 73, 86, 115, 58, 32) {
                    let rest = copy_range(li, 5, li.len());
                    proof {
                        assert(rest@ =~= li@.skip(5));
                    }
                    match parse_stats(&rest) {
                        Some(st) => {
                            hp_iv = match st.hp {
                                Some(v) => Some(v),
                                None => hp_iv,
                            };
                            atk_iv = match st.atk {
                                Some(v) => Some(v),
                                None => atk_iv,
                            };
                            def_iv = match st.def {
                                Some(v) => Some(v),
                                None => def_iv,
                            };
                            spa_iv = match st.spa {
                                Some(v) => Some(v),
                                None => spa_iv,
                            };
                            spd_iv = match st.spd {
                                Some(v) => Some(v),
                                None => spd_iv,
                            };
                            spe_iv = match st.spe {
                                Some(v) => Some(v),
                                None => spe_iv,
                            };
                        },
                        None => {},
                    }
                } else {
                    let ghost lv = li@;
                    other.push(copy_bytes(li));
                    proof {
                        assert(other.deep_view() =~~= ot0.push(lv));
                    }
                }
                proof {
                    assert(apply_line(acc_pre, linesv[i as int], tbl) =~~= acc_of(
                        moves@.map_values(|m: MoveInfo| m@),
                        other.deep_view(),
                        hp,
                        atk,
                        def,
                        spa,
                        spd,
                        spe,
                        hp_iv,
                        atk_iv,
                        def_iv,
                        spa_iv,
                        spd_iv,
                        spe_iv,
                    ));
                }
            },
        }
        i = i + 1;
    }
    let r = MonSet {
        name: h.species,
        search_name,
        image,
        item,
        item_img,
        moves,
        type1,
        gender: h.gender,
        other,
        hp,
        atk,
        def,
        spa,
        spd,
        spe,
        hp_iv,
        atk_iv,
        def_iv,
        spa_iv,
        spd_iv,
        spe_iv,
    };
    proof {
        assert(r@ =~~= spec_build_set(block@, h@, lk@));
    }
    r
}

/// Parses a whole paste body against the lookup tables: one [`Content`]
/// entry per block, preserving block order exactly.
pub fn parse_paste(text: &Vec<u8>, lk: &Lookup) -> (r: Vec<Content>)
    ensures
        r@.map_values(|c: Content| c@) == spec_parse_paste(text@, lk@),
{
    let blocks = split_blocks(text);
    let ghost bs = spec_blocks(text@);
    let mut out: Vec<Content> = Vec::new();
    let mut i: usize = 0;
    proof {
        assert(out@.map_values(|c: Content| c@) =~= bs.take(0).map_values(
            |b: Seq<u8>| spec_content_of_block(b, lk@),
        ));
    }
    while i < blocks.len()
        invariant
            i <= blocks@.len(),
            blocks.deep_view() == bs,
            out@.map_values(|c: Content| c@) == bs.take(i as int).map_values(
                |b: Seq<u8>| spec_content_of_block(b, lk@),
            ),
        decreases blocks@.len() - i,
    {
        let ghost o0 = out@.map_values(|c: Content| c@);
        let block = &blocks[i];
        proof {
            assert(block@ == bs[i as int]);
        }
        let lines = split_lines(block);
        let c: Content = if lines.len() == 0 {
            Content::Text(copy_bytes(block))
        } else {
            let first = &lines[0];
            proof {
                assert(first@ == spec_lines(block@)[0]);
            }
            match parse_header(first) {
                None => Content::Text(copy_bytes(block)),
                Some(h) => Content::Mon(build_set(block, h, lk)),
            }
        };
        let ghost cv = c@;
        proof {
            assert(cv =~~= spec_content_of_block(bs[i as int], lk@));
        }
        out.push(c);
        i = i + 1;
        proof {
            assert(out@.map_values(|c: Content| c@) =~~= o0.push(cv));
            assert(bs.take(i as int).map_values(|b: Seq<u8>| spec_content_of_block(b, lk@))
                =~~= o0.push(cv));
        }
    }
    proof {
        assert(bs.take(i as int) =~= bs);
    }
    out
}

proof fn lemma_apply_lines_keep_evs(
    acc: BuildAcc,
    lines: Seq<Seq<u8>>,
    i: nat,
    tbl: Seq<MoveEntryView>,
)
    requires
        forall|j: int| i <= j < lines.len() ==> !matches_at(#[trigger] lines[j], 0, evs_lit()),
    ensures
        apply_lines(acc, lines, i, tbl).hp == acc.hp,
        apply_lines(acc, lines, i, tbl).atk == acc.atk,
        apply_lines(acc, lines, i, tbl).def == acc.def,
        apply_lines(acc, lines, i, tbl).spa == acc.spa,
        apply_lines(acc, lines, i, tbl).spd == acc.spd,
        apply_lines(acc, lines, i, tbl).spe == acc.spe,
    decreases lines.len() - i,
{
    if i < lines.len() {
        lemma_apply_lines_keep_evs(apply_line(acc, lines[i as int], tbl), lines, i + 1, tbl);
    }
}

/// Effort-value defaulting: a block none of whose classified lines carries
/// the `"EVs: "` prefix yields all six effort values equal to 0.
pub proof fn lemma_ev_defaulting(block: Seq<u8>, h: HeaderView, lk: LookupView)
    requires
        forall|j: int|
            1 <= j < spec_lines(block).len() ==> !matches_at(
                #[trigger] spec_lines(block)[j],
                0,
                evs_lit(),
            ),
    ensures
        spec_build_set(block, h, lk).hp == 0,
        spec_build_set(block, h, lk).atk == 0,
        spec_build_set(block, h, lk).def == 0,
        spec_build_set(block, h, lk).spa == 0,
        spec_build_set(block, h, lk).spd == 0,
        spec_build_set(block, h, lk).spe == 0,
{
    lemma_apply_lines_keep_evs(acc_init(), spec_lines(block), 1, lk.moves);
}

/// Shiny detection: the literal marker anywhere in a block selects the
/// shiny variant of whatever species entry the resolved search key finds
/// (female where the header says so); its absence selects the plain one.
pub proof fn lemma_shiny_variant(block: Seq<u8>, h: HeaderView, lk: LookupView)
    ensures
        ({
            let s = spec_build_set(block, h, lk);
            let female = h.gender == Gender::Female;
            match find_mon(lk.mons, s.search_name) {
                Some(e) => s.image == if contains_shiny(block) {
                    if female {
                        e.img_shiny_female
                    } else {
                        e.img_shiny
                    }
                } else {
                    if female {
                        e.img_female
                    } else {
                        e.img
                    }
                },
                None => s.image == Seq::<u8>::empty(),
            }
        }),
{
}

} // verus!
