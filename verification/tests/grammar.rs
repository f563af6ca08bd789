//! Tests of the three line grammars.

use pokebin::grammar::{parse_header, parse_move, parse_stats, Gender};

fn v(s: &[u8]) -> Vec<u8> {
    s.to_vec()
}

#[test]
fn header_bare_with_item() {
    let h = parse_header(&v(b"Garchomp @ Rocky Helmet")).unwrap();
    assert_eq!(h.species, v(b"Garchomp"));
    assert_eq!(h.gender, Gender::Neutral);
    assert_eq!(h.item, Some(v(b"Rocky Helmet")));
}

#[test]
fn header_gender_and_item() {
    let h = parse_header(&v(b"Chansey (F) @ Eviolite")).unwrap();
    assert_eq!(h.species, v(b"Chansey"));
    assert_eq!(h.gender, Gender::Female);
    assert_eq!(h.item, Some(v(b"Eviolite")));
}

#[test]
fn header_nickname_form() {
    let h = parse_header(&v(b"Chompy (Garchomp) (M) @ Choice Scarf")).unwrap();
    assert_eq!(h.species, v(b"Garchomp"));
    assert_eq!(h.gender, Gender::Male);
    assert_eq!(h.item, Some(v(b"Choice Scarf")));
}

#[test]
fn header_nickname_with_parens_in_nickname() {
    // the rightmost " (" that yields a parse wins
    let h = parse_header(&v(b"A (weird) nick (Mr. Mime) @ Leftovers")).unwrap();
    assert_eq!(h.species, v(b"Mr. Mime"));
    assert_eq!(h.item, Some(v(b"Leftovers")));
}

#[test]
fn header_bare_species_only() {
    let h = parse_header(&v(b"Tapu Koko")).unwrap();
    assert_eq!(h.species, v(b"Tapu Koko"));
    assert_eq!(h.gender, Gender::Neutral);
    assert_eq!(h.item, None);
}

#[test]
fn header_trailing_spaces_allowed() {
    let h = parse_header(&v(b"Garchomp @ Rocky Helmet   ")).unwrap();
    assert_eq!(h.species, v(b"Garchomp"));
    assert_eq!(h.item, Some(v(b"Rocky Helmet")));
}

#[test]
fn header_lowercase_line_fails() {
    assert!(parse_header(&v(b"just some notes")).is_none());
}

#[test]
fn header_trailing_garbage_fails() {
    assert!(parse_header(&v(b"Garchomp @ Rocky Helmet!")).is_none());
}

#[test]
fn header_item_must_be_capitalized() {
    assert!(parse_header(&v(b"Garchomp @ rocky helmet")).is_none());
}

#[test]
fn move_line_plain() {
    assert_eq!(parse_move(&v(b"- Earthquake")), Some(v(b"Earthquake")));
}

#[test]
fn move_line_multiword() {
    assert_eq!(parse_move(&v(b"- Stealth Rock")), Some(v(b"Stealth Rock")));
}

#[test]
fn move_line_with_qualifier() {
    assert_eq!(parse_move(&v(b"- Hidden Power [Fire]")), Some(v(b"Hidden Power")));
}

#[test]
fn move_line_alternatives_keep_first() {
    assert_eq!(parse_move(&v(b"- Protect / Substitute")), Some(v(b"Protect")));
}

#[test]
fn move_line_apostrophe() {
    assert_eq!(parse_move(&v(b"- Nature's Madness")), Some(v(b"Nature's Madness")));
}

#[test]
fn move_line_requires_dash_space() {
    assert!(parse_move(&v(b"Earthquake")).is_none());
    assert!(parse_move(&v(b"-Earthquake")).is_none());
    assert!(parse_move(&v(b"- earthquake")).is_none());
}

#[test]
fn stat_line_three_terms() {
    let st = parse_stats(&v(b"252 HP / 252 SpA / 4 Spe")).unwrap();
    assert_eq!(st.hp, Some(252));
    assert_eq!(st.atk, None);
    assert_eq!(st.def, None);
    assert_eq!(st.spa, Some(252));
    assert_eq!(st.spd, None);
    assert_eq!(st.spe, Some(4));
}

#[test]
fn stat_line_single_term() {
    let st = parse_stats(&v(b"0 Atk")).unwrap();
    assert_eq!(st.hp, None);
    assert_eq!(st.atk, Some(0));
    assert_eq!(st.spe, None);
}

#[test]
fn stat_line_out_of_order_fails() {
    // Spe cannot stand before HP: the canonical order is fixed
    assert!(parse_stats(&v(b"4 Spe / 252 HP")).is_none());
}

#[test]
fn stat_line_garbage_fails() {
    assert!(parse_stats(&v(b"fast")).is_none());
}

#[test]
fn stat_line_value_over_32_bits_fails() {
    assert!(parse_stats(&v(b"4294967296 HP")).is_none());
    assert_eq!(parse_stats(&v(b"4294967295 HP")).unwrap().hp, Some(u32::MAX));
}

#[test]
fn stat_line_leading_zeros() {
    let st = parse_stats(&v(b"000252 HP")).unwrap();
    assert_eq!(st.hp, Some(252));
}

#[test]
fn header_single_letter_species_fails() {
    // a species word needs at least two characters
    assert!(parse_header(&v(b"X @ Leftovers")).is_none());
}

#[test]
fn header_nickname_gender_no_item() {
    let h = parse_header(&v(b"Blissey (Chansey) (F)")).unwrap();
    assert_eq!(h.species, v(b"Chansey"));
    assert_eq!(h.gender, Gender::Female);
    assert_eq!(h.item, None);
}

#[test]
fn stat_line_trailing_garbage_fails() {
    assert!(parse_stats(&v(b"252 HP extra")).is_none());
}

#[test]
fn move_line_qualifier_then_alternative() {
    assert_eq!(parse_move(&v(b"- Hidden Power [Ice] / Surf")), Some(v(b"Hidden Power")));
}

#[test]
fn move_line_malformed_qualifier_fails() {
    assert!(parse_move(&v(b"- Hidden Power [ice]")).is_none());
    assert!(parse_move(&v(b"- Hidden Power [Ice")).is_none());
}

#[test]
fn header_unknown_gender_marker_fails() {
    assert!(parse_header(&v(b"Garchomp (X)")).is_none());
}
