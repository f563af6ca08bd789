//! Tests of block splitting, shiny detection and the end-to-end paste
//! parse against small lookup tables.

use pokebin::blocks::{has_shiny, split_blocks, trim};
use pokebin::builder::{parse_paste, Content, MonSet};
use pokebin::grammar::Gender;
use pokebin::lookup::{ItemEntry, Lookup, MonEntry, MoveEntry};

fn v(s: &[u8]) -> Vec<u8> {
    s.to_vec()
}

fn tables() -> Lookup {
    Lookup {
        mons: vec![
            MonEntry {
                key: v(b"garchomp"),
                type1: v(b"Dragon"),
                img: v(b"home/garchomp.png"),
                img_shiny: v(b"home/garchomp-shiny.png"),
                img_female: v(b"home/garchomp-f.png"),
                img_shiny_female: v(b"home/garchomp-shiny-f.png"),
            },
            MonEntry {
                key: v(b"chansey"),
                type1: v(b"Normal"),
                img: v(b"home/chansey.png"),
                img_shiny: v(b"home/chansey-shiny.png"),
                img_female: v(b"home/chansey-f.png"),
                img_shiny_female: v(b"home/chansey-shiny-f.png"),
            },
        ],
        moves: vec![
            MoveEntry { key: v(b"earthquake"), type1: v(b"Ground") },
            MoveEntry { key: v(b"stealth-rock"), type1: v(b"Rock") },
        ],
        items: vec![
            ItemEntry { key: v(b"rockyhelmet"), img: v(b"items/rocky-helmet.png") },
            ItemEntry { key: v(b"eviolite"), img: v(b"items/eviolite.png") },
        ],
    }
}

fn expect_mon(c: &Content) -> &MonSet {
    match c {
        Content::Mon(m) => m,
        Content::Text(_) => panic!("expected a parsed set"),
    }
}

fn expect_text(c: &Content) -> &Vec<u8> {
    match c {
        Content::Text(t) => t,
        Content::Mon(_) => panic!("expected free text"),
    }
}

#[test]
fn blocks_split_and_trim() {
    let blocks = split_blocks(&v(b"first\nstill first\n\nsecond\n\n\nthird"));
    assert_eq!(blocks, vec![v(b"first\nstill first"), v(b"second"), v(b"third")]);
}

#[test]
fn blocks_ignore_leading_and_trailing_blank_lines() {
    let blocks = split_blocks(&v(b"\n\n\n  \n\nalpha\n\n \t \n\nbeta\n\n\n"));
    assert_eq!(blocks, vec![v(b"alpha"), v(b"beta")]);
}

#[test]
fn blocks_of_whitespace_only_input() {
    assert_eq!(split_blocks(&v(b"")), Vec::<Vec<u8>>::new());
    assert_eq!(split_blocks(&v(b" \n\n\t\n\n ")), Vec::<Vec<u8>>::new());
}

#[test]
fn blocks_preserve_order() {
    let blocks = split_blocks(&v(b"c\n\nb\n\na"));
    assert_eq!(blocks, vec![v(b"c"), v(b"b"), v(b"a")]);
}

#[test]
fn trim_strips_both_ends_only() {
    assert_eq!(trim(&v(b"  a b \r\n")), v(b"a b"));
    assert_eq!(trim(&v(b"\t\n ")), v(b""));
}

#[test]
fn shiny_marker_detection() {
    assert!(has_shiny(&v(b"Garchomp\nShiny: Yes\n- Earthquake")));
    assert!(has_shiny(&v(b"prefix Shiny: Yes suffix")));
    assert!(!has_shiny(&v(b"Garchomp\nShiny: No")));
    assert!(!has_shiny(&v(b"Shiny: Ye")));
}

#[test]
fn end_to_end_two_blocks() {
    let lk = tables();
    let text = v(b"Garchomp @ Rocky Helmet\n- Earthquake\n- Stealth Rock\nEVs: 252 HP / 252 Spe\n\nJust a comment block");
    let contents = parse_paste(&text, &lk);
    assert_eq!(contents.len(), 2);

    let m = expect_mon(&contents[0]);
    assert_eq!(m.name, v(b"Garchomp"));
    assert_eq!(m.search_name, v(b"garchomp"));
    assert_eq!(m.type1, v(b"Dragon"));
    assert_eq!(m.gender, Gender::Neutral);
    assert_eq!(m.item, v(b"Rocky Helmet"));
    assert_eq!(m.item_img, v(b"items/rocky-helmet.png"));
    assert_eq!(m.image, v(b"home/garchomp.png"));
    assert_eq!(m.moves.len(), 2);
    assert_eq!(m.moves[0].name, v(b"Earthquake"));
    assert_eq!(m.moves[0].type1, v(b"Ground"));
    assert_eq!(m.moves[0].id, 0);
    assert_eq!(m.moves[1].name, v(b"Stealth Rock"));
    assert_eq!(m.moves[1].type1, v(b"Rock"));
    assert_eq!((m.hp, m.atk, m.def, m.spa, m.spd, m.spe), (252, 0, 0, 0, 0, 252));
    assert_eq!(m.hp_iv, None);
    assert!(m.other.is_empty());

    assert_eq!(expect_text(&contents[1]), &v(b"Just a comment block"));
}

#[test]
fn ev_defaulting_without_stat_line() {
    let lk = tables();
    let contents = parse_paste(&v(b"Garchomp\n- Earthquake"), &lk);
    let m = expect_mon(&contents[0]);
    assert_eq!((m.hp, m.atk, m.def, m.spa, m.spd, m.spe), (0, 0, 0, 0, 0, 0));
}

#[test]
fn ev_line_example_values() {
    let lk = tables();
    let contents = parse_paste(&v(b"Garchomp\nEVs: 252 HP / 252 SpA / 4 Spe"), &lk);
    let m = expect_mon(&contents[0]);
    assert_eq!((m.hp, m.atk, m.def, m.spa, m.spd, m.spe), (252, 0, 0, 252, 0, 4));
}

#[test]
fn iv_line_sets_options() {
    let lk = tables();
    let contents = parse_paste(&v(b"Garchomp\nIVs: 0 Atk / 30 Spe"), &lk);
    let m = expect_mon(&contents[0]);
    assert_eq!(m.hp_iv, None);
    assert_eq!(m.atk_iv, Some(0));
    assert_eq!(m.spe_iv, Some(30));
    assert_eq!((m.hp, m.atk, m.def, m.spa, m.spd, m.spe), (0, 0, 0, 0, 0, 0));
}

#[test]
fn shiny_block_selects_shiny_image() {
    let lk = tables();
    let contents = parse_paste(&v(b"Garchomp\nShiny: Yes\n- Earthquake"), &lk);
    let m = expect_mon(&contents[0]);
    assert_eq!(m.image, v(b"home/garchomp-shiny.png"));
    // the marker line itself is no move or stat line, so it lands in "other"
    assert_eq!(m.other, vec![v(b"Shiny: Yes")]);
}

#[test]
fn female_gender_selects_female_image() {
    let lk = tables();
    let contents = parse_paste(&v(b"Chansey (F) @ Eviolite"), &lk);
    let m = expect_mon(&contents[0]);
    assert_eq!(m.gender, Gender::Female);
    assert_eq!(m.image, v(b"home/chansey-f.png"));
    assert_eq!(m.item_img, v(b"items/eviolite.png"));
}

#[test]
fn shiny_female_selects_combined_variant() {
    let lk = tables();
    let contents = parse_paste(&v(b"Chansey (F)\nShiny: Yes"), &lk);
    let m = expect_mon(&contents[0]);
    assert_eq!(m.image, v(b"home/chansey-shiny-f.png"));
}

#[test]
fn unknown_names_degrade_to_empty_fields() {
    let lk = tables();
    let contents = parse_paste(&v(b"Snorlax @ Unknown Item\n- Unknown Move"), &lk);
    let m = expect_mon(&contents[0]);
    assert_eq!(m.name, v(b"Snorlax"));
    assert_eq!(m.search_name, v(b""));
    assert_eq!(m.type1, v(b""));
    assert_eq!(m.image, v(b""));
    assert_eq!(m.item, v(b"Unknown Item"));
    assert_eq!(m.item_img, v(b""));
    assert_eq!(m.moves.len(), 1);
    assert_eq!(m.moves[0].name, v(b"Unknown Move"));
    assert_eq!(m.moves[0].type1, v(b""));
}

#[test]
fn non_header_block_is_free_text_verbatim() {
    let lk = tables();
    let contents = parse_paste(&v(b"just some notes\nGarchomp @ Rocky Helmet"), &lk);
    // the header grammar is tried only against the first line of the block
    assert_eq!(
        expect_text(&contents[0]),
        &v(b"just some notes\nGarchomp @ Rocky Helmet")
    );
}

#[test]
fn other_lines_collected_in_order() {
    let lk = tables();
    let text = v(b"Garchomp @ Rocky Helmet\nAbility: Rough Skin\n- Earthquake\nTera Type: Steel\nJolly Nature");
    let contents = parse_paste(&text, &lk);
    let m = expect_mon(&contents[0]);
    assert_eq!(
        m.other,
        vec![v(b"Ability: Rough Skin"), v(b"Tera Type: Steel"), v(b"Jolly Nature")]
    );
    assert_eq!(m.moves.len(), 1);
}

#[test]
fn crlf_lines_are_handled() {
    let lk = tables();
    let contents = parse_paste(&v(b"Garchomp\r\n- Earthquake\r\nEVs: 4 HP"), &lk);
    let m = expect_mon(&contents[0]);
    assert_eq!(m.name, v(b"Garchomp"));
    assert_eq!(m.moves[0].name, v(b"Earthquake"));
    assert_eq!(m.hp, 4);
}

#[test]
fn second_ev_line_overrides_only_present_terms() {
    let lk = tables();
    let contents = parse_paste(&v(b"Garchomp\nEVs: 252 HP / 4 Spe\nEVs: 8 Atk"), &lk);
    let m = expect_mon(&contents[0]);
    // the second line sets Atk; HP and Spe keep the first line's values
    assert_eq!((m.hp, m.atk, m.spe), (252, 8, 4));
}

#[test]
fn failed_stat_line_sets_nothing_and_is_consumed() {
    let lk = tables();
    let contents = parse_paste(&v(b"Garchomp\nEVs: fast / 252 HP"), &lk);
    let m = expect_mon(&contents[0]);
    // the line carries the stat prefix, so it is consumed even though its
    // remainder fails the stat grammar: nothing set, nothing in "other"
    assert_eq!((m.hp, m.atk, m.def, m.spa, m.spd, m.spe), (0, 0, 0, 0, 0, 0));
    assert!(m.other.is_empty());
}

#[test]
fn hyphenated_species_with_lowercase_tail() {
    let lk = tables();
    let contents = parse_paste(&v(b"Kommo-o @ Eviolite"), &lk);
    let m = expect_mon(&contents[0]);
    assert_eq!(m.name, v(b"Kommo-o"));
    assert_eq!(m.item, v(b"Eviolite"));
}

#[test]
fn capitalized_sentence_is_free_text() {
    let lk = tables();
    let contents = parse_paste(&v(b"Just a comment block"), &lk);
    assert_eq!(expect_text(&contents[0]), &v(b"Just a comment block"));
}
