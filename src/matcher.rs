//! The pattern matcher: exact lookup, then the nearest candidate by Hamming
//! distance.
use vstd::prelude::*;
use crate::bits::{find_closest_group, hamming, is_first_closest, scan_end};
use crate::catalog::{Catalog, GlyphEntry, blank_entry, candidates_spec, lookup_spec, patterns};

verus! {

/// Position of the pattern that the nearest-pattern search settles on.
pub open spec fn closest_index(keys: Seq<u64>, p: u64) -> int {
    choose|i: int| is_first_closest(keys, p, scan_end(keys, p), i)
}

/// The entry chosen for pattern `p`: the registered one when there is one;
/// else the nearest candidate, where only upright entries are candidates
/// unless both colours are opaque; else a blank.
pub open spec fn matched(cat: Seq<GlyphEntry>, p: u64, opaque: bool) -> GlyphEntry {
    match lookup_spec(cat, p) {
        Some(e) => e,
        None => {
            let c = candidates_spec(cat, opaque);
            if c.len() == 0 {
                blank_entry()
            } else {
                c[closest_index(patterns(c), p)]
            }
        },
    }
}

proof fn lemma_first_closest_unique(keys: Seq<u64>, p: u64, end: int, i: int, j: int)
    requires
        is_first_closest(keys, p, end, i),
        is_first_closest(keys, p, end, j),
    ensures
        i == j,
{
    if i < j {
        assert(hamming(keys[i], p) > hamming(keys[j], p));
        assert(hamming(keys[i], p) <= hamming(keys[j], p));
    } else if j < i {
        assert(hamming(keys[j], p) > hamming(keys[i], p));
        assert(hamming(keys[j], p) <= hamming(keys[i], p));
    }
}

/// Picks the catalog entry for a cell's coverage pattern.
pub fn match_glyph(catalog: &Catalog, pattern: u64, opaque: bool) -> (r: GlyphEntry)
    requires
        catalog.wf(),
    ensures
        r == matched(catalog@, pattern, opaque),
{
    match catalog.lookup(pattern) {
        Some(e) => e,
        None => {
            let (keys, entries) = catalog.candidates(opaque);
            match find_closest_group(keys.as_slice(), pattern) {
                Some(i) => {
                    proof {
                        let c = closest_index(keys@, pattern);
                        lemma_first_closest_unique(keys@, pattern, scan_end(keys@, pattern), c, i as int);
                    }
                    entries[i]
                },
                None => GlyphEntry::new(0, true, ' '),
            }
        },
    }
}

} // verus!
