use blockish::{
    bit_count, find_closest_group, glyph_templates, match_glyph, pattern_distance, Catalog, GlyphEntry,
};

#[test]
fn bit_count_counts_set_bits() {
    assert_eq!(bit_count(0), 0);
    assert_eq!(bit_count(1), 1);
    assert_eq!(bit_count(0x8000_0001), 2);
    assert_eq!(bit_count(0x5555_5555), 16);
    assert_eq!(bit_count(0xF0F0_0F0F), 16);
    assert_eq!(bit_count(0xFFFF_FFFF), 32);
    assert_eq!(bit_count(0x1234_5678), 13);
}

#[test]
fn pattern_distance_spans_both_words() {
    assert_eq!(pattern_distance(0, 0), 0);
    assert_eq!(pattern_distance(0xFFFF_FFFF_0000_0000, 0), 32);
    assert_eq!(pattern_distance(u64::MAX, 0), 64);
    assert_eq!(pattern_distance(0x8000_0000_0000_0001, 0x0000_0001_8000_0000), 4);
}

#[test]
fn closest_group_of_nothing_is_none() {
    assert_eq!(find_closest_group(&[], 0), None);
}

#[test]
fn closest_group_prefers_the_earliest_of_equals() {
    assert_eq!(find_closest_group(&[0xF0, 0x0F, 0xFF00], 0), Some(0));
    assert_eq!(find_closest_group(&[0xFF, 0x07, 0x70], 0), Some(1));
}

#[test]
fn closest_group_stops_at_distance_one() {
    // The exact match at index 1 is never reached.
    assert_eq!(find_closest_group(&[0b1, 0b0], 0), Some(0));
    assert_eq!(find_closest_group(&[0b111, 0b11, 0b1, 0b0], 0), Some(2));
}

#[test]
fn standard_catalog_keeps_first_registration() {
    let c = Catalog::standard();
    assert_eq!(c.all_entries().len(), glyph_templates().len() - 3);
    assert_eq!(c.lookup(0xFFFF_FFFF_0000_0000), Some(GlyphEntry::new(0xFFFF_FFFF_0000_0000, true, '\u{2580}')));
    assert_eq!(c.lookup(0x0000_0000_FFFF_FFFF), Some(GlyphEntry::new(0x0000_0000_FFFF_FFFF, true, '\u{2584}')));
    assert_eq!(c.lookup(0xFF00_0000_0000_0000), Some(GlyphEntry::new(0xFF00_0000_0000_0000, false, '\u{2587}')));
    assert_eq!(c.lookup(u64::MAX), Some(GlyphEntry::new(u64::MAX, true, '\u{2588}')));
    assert_eq!(c.lookup(0x1234), None);
}

#[test]
fn both_vertical_rule_encodings_are_registered() {
    let c = Catalog::standard();
    assert_eq!(c.lookup(0x1010_1010_1010_1010).map(|e| e.glyph), Some('\u{2502}'));
    assert_eq!(c.lookup(0x0808_0808_0808_0808).map(|e| e.glyph), Some('\u{2502}'));
}

#[test]
fn insert_ignores_a_taken_pattern() {
    let mut c = Catalog::new();
    c.insert(7, true, 'a');
    c.insert(7, false, 'b');
    c.insert(9, false, 'c');
    assert_eq!(c.all_entries().len(), 2);
    assert_eq!(c.lookup(7), Some(GlyphEntry::new(7, true, 'a')));
    assert_eq!(c.lookup(9), Some(GlyphEntry::new(9, false, 'c')));
}

#[test]
fn exact_match_wins_even_when_transparent() {
    let c = Catalog::standard();
    let e = match_glyph(&c, 0xFFFF_FF00_FFFF_FFFF, false);
    assert_eq!(e, GlyphEntry::new(0xFFFF_FF00_FFFF_FFFF, false, '\u{2500}'));
}

#[test]
fn near_miss_uses_inverted_entries_only_when_opaque() {
    let c = Catalog::standard();
    let p = 0xFFFF_FF00_FFFF_FFFE;
    assert_eq!(match_glyph(&c, p, true), GlyphEntry::new(0xFFFF_FF00_FFFF_FFFF, false, '\u{2500}'));
    let e = match_glyph(&c, p, false);
    assert!(e.polarity);
    assert_eq!(e.glyph, '\u{2588}');
}

#[test]
fn empty_catalog_falls_back_to_blank() {
    let c = Catalog::new();
    assert_eq!(match_glyph(&c, 0x1234, true), GlyphEntry::new(0, true, ' '));
}

#[test]
fn inverted_only_catalog_has_no_transparent_candidates() {
    let mut c = Catalog::new();
    c.insert(0xFF, false, 'x');
    assert_eq!(match_glyph(&c, 0xFE, true), GlyphEntry::new(0xFF, false, 'x'));
    assert_eq!(match_glyph(&c, 0xFE, false), GlyphEntry::new(0, true, ' '));
}

#[test]
fn every_pattern_resolves_to_a_catalog_entry() {
    let c = Catalog::standard();
    let mut state: u64 = 0x9E37_79B9_7F4A_7C15;
    for _ in 0..2000 {
        state ^= state << 13;
        state ^= state >> 7;
        state ^= state << 17;
        for opaque in [true, false] {
            let e = match_glyph(&c, state, opaque);
            assert!(c.all_entries().contains(&e));
            if !opaque && c.lookup(state).is_none() {
                assert!(e.polarity);
            }
        }
    }
}
