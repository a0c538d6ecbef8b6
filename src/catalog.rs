//! The glyph template catalog: 64-bit coverage patterns and the glyph that
//! stands for each, kept in registration order.
use vstd::prelude::*;

verus! {

/// A catalog glyph. With `polarity` set, the set bits of `pattern` are the
/// glyph's foreground; without it the glyph covers the clear bits, and the
/// two colours trade places.
#[derive(Clone, Copy, Debug, PartialEq, Eq, Structural)]
pub struct GlyphEntry {
    pub pattern: u64,
    pub polarity: bool,
    pub glyph: char,
}

impl GlyphEntry {
    pub fn new(pattern: u64, polarity: bool, glyph: char) -> (r: GlyphEntry)
        ensures
            r == entry(pattern, polarity, glyph),
    {
        GlyphEntry { pattern, polarity, glyph }
    }
}

pub open spec fn entry(pattern: u64, polarity: bool, glyph: char) -> GlyphEntry {
    GlyphEntry { pattern, polarity, glyph }
}

/// The entry used when no catalog entry is a candidate: a blank glyph.
pub open spec fn blank_entry() -> GlyphEntry {
    entry(0, true, ' ')
}

/// The templates in the order they are registered. Some patterns occur
/// twice; the first registration is the one that is kept.
pub open spec fn template_table() -> Seq<GlyphEntry> {
    seq![
        entry(0x000000ff00000000, true, '─'),
        entry(0x00000000ff000000, true, '─'),
        entry(0x000000ffff000000, true, '━'),
        entry(0x1010101010101010, true, '│'),
        entry(0x0808080808080808, true, '│'),
        entry(0x1818181818181818, true, '┃'),
        entry(0xffffff00ffffffff, false, '─'),
        entry(0xffffffff00ffffff, false, '─'),
        entry(0xffffff0000ffffff, false, '━'),
        entry(0xefefefefefefefef, false, '│'),
        entry(0xf7f7f7f7f7f7f7f7, false, '│'),
        entry(0xe7e7e7e7e7e7e7e7, false, '┃'),
        entry(0xffffffff00000000, true, '▀'),
        entry(0x00000000000000ff, true, '▁'),
        entry(0x000000000000ffff, true, '▂'),
        entry(0x0000000000ffffff, true, '▃'),
        entry(0x00000000ffffffff, true, '▄'),
        entry(0x000000ffffffffff, true, '▅'),
        entry(0x0000ffffffffffff, true, '▆'),
        entry(0x00ffffffffffffff, true, '▇'),
        entry(0x00000000ffffffff, false, '▀'),
        entry(0xffffffffffffff00, false, '▁'),
        entry(0xffffffffffff0000, false, '▂'),
        entry(0xffffffffff000000, false, '▃'),
        entry(0xffffffff00000000, false, '▄'),
        entry(0xffffff0000000000, false, '▅'),
        entry(0xffff000000000000, false, '▆'),
        entry(0xff00000000000000, false, '▇'),
        entry(0xffffffffffffffff, true, '█'),
        entry(0xfefefefefefefefe, true, '▉'),
        entry(0xfcfcfcfcfcfcfcfc, true, '▊'),
        entry(0xf8f8f8f8f8f8f8f8, true, '▋'),
        entry(0xf0f0f0f0f0f0f0f0, true, '▌'),
        entry(0xe0e0e0e0e0e0e0e0, true, '▍'),
        entry(0xc0c0c0c0c0c0c0c0, true, '▎'),
        entry(0x8080808080808080, true, '▏'),
        entry(0x0f0f0f0f0f0f0f0f, true, '▐'),
        entry(0x8822882288228822, true, '░'),
        entry(0xaa54aa54aa54aa54, true, '▒'),
        entry(0x77dd77dd77dd77dd, true, '▓'),
        entry(0xff00000000000000, true, '▔'),
        entry(0x0101010101010101, true, '▕'),
        entry(0x00000000f0f0f0f0, true, '▖'),
        entry(0x000000000f0f0f0f, true, '▗'),
        entry(0xf0f0f0f000000000, true, '▘'),
        entry(0xf0f0f0f0ffffffff, true, '▙'),
        entry(0xf0f0f0f00f0f0f0f, true, '▚'),
        entry(0xfffffffff0f0f0f0, true, '▛'),
        entry(0xffffffff0f0f0f0f, true, '▜'),
        entry(0x0f0f0f0f00000000, true, '▝'),
        entry(0x0f0f0f0ff0f0f0f0, true, '▞'),
        entry(0x0f0f0f0fffffffff, true, '▟'),
    ]
}

/// The templates of the standard catalog, in registration order.
pub fn glyph_templates() -> (r: Vec<GlyphEntry>)
    ensures
        r@ == template_table(),
{
    vec![
        GlyphEntry::new(0x000000ff00000000, true, '─'),
        GlyphEntry::new(0x00000000ff000000, true, '─'),
        GlyphEntry::new(0x000000ffff000000, true, '━'),
        GlyphEntry::new(0x1010101010101010, true, '│'),
        GlyphEntry::new(0x0808080808080808, true, '│'),
        GlyphEntry::new(0x1818181818181818, true, '┃'),
        GlyphEntry::new(0xffffff00ffffffff, false, '─'),
        GlyphEntry::new(0xffffffff00ffffff, false, '─'),
        GlyphEntry::new(0xffffff0000ffffff, false, '━'),
        GlyphEntry::new(0xefefefefefefefef, false, '│'),
        GlyphEntry::new(0xf7f7f7f7f7f7f7f7, false, '│'),
        GlyphEntry::new(0xe7e7e7e7e7e7e7e7, false, '┃'),
        GlyphEntry::new(0xffffffff00000000, true, '▀'),
        GlyphEntry::new(0x00000000000000ff, true, '▁'),
        GlyphEntry::new(0x000000000000ffff, true, '▂'),
        GlyphEntry::new(0x0000000000ffffff, true, '▃'),
        GlyphEntry::new(0x00000000ffffffff, true, '▄'),
        GlyphEntry::new(0x000000ffffffffff, true, '▅'),
        GlyphEntry::new(0x0000ffffffffffff, true, '▆'),
        GlyphEntry::new(0x00ffffffffffffff, true, '▇'),
        GlyphEntry::new(0x00000000ffffffff, false, '▀'),
        GlyphEntry::new(0xffffffffffffff00, false, '▁'),
        GlyphEntry::new(0xffffffffffff0000, false, '▂'),
        GlyphEntry::new(0xffffffffff000000, false, '▃'),
        GlyphEntry::new(0xffffffff00000000, false, '▄'),
        GlyphEntry::new(0xffffff0000000000, false, '▅'),
        GlyphEntry::new(0xffff000000000000, false, '▆'),
        GlyphEntry::new(0xff00000000000000, false, '▇'),
        GlyphEntry::new(0xffffffffffffffff, true, '█'),
        GlyphEntry::new(0xfefefefefefefefe, true, '▉'),
        GlyphEntry::new(0xfcfcfcfcfcfcfcfc, true, '▊'),
        GlyphEntry::new(0xf8f8f8f8f8f8f8f8, true, '▋'),
        GlyphEntry::new(0xf0f0f0f0f0f0f0f0, true, '▌'),
        GlyphEntry::new(0xe0e0e0e0e0e0e0e0, true, '▍'),
        GlyphEntry::new(0xc0c0c0c0c0c0c0c0, true, '▎'),
        GlyphEntry::new(0x8080808080808080, true, '▏'),
        GlyphEntry::new(0x0f0f0f0f0f0f0f0f, true, '▐'),
        GlyphEntry::new(0x8822882288228822, true, '░'),
        GlyphEntry::new(0xaa54aa54aa54aa54, true, '▒'),
        GlyphEntry::new(0x77dd77dd77dd77dd, true, '▓'),
        GlyphEntry::new(0xff00000000000000, true, '▔'),
        GlyphEntry::new(0x0101010101010101, true, '▕'),
        GlyphEntry::new(0x00000000f0f0f0f0, true, '▖'),
        GlyphEntry::new(0x000000000f0f0f0f, true, '▗'),
        GlyphEntry::new(0xf0f0f0f000000000, true, '▘'),
        GlyphEntry::new(0xf0f0f0f0ffffffff, true, '▙'),
        GlyphEntry::new(0xf0f0f0f00f0f0f0f, true, '▚'),
        GlyphEntry::new(0xfffffffff0f0f0f0, true, '▛'),
        GlyphEntry::new(0xffffffff0f0f0f0f, true, '▜'),
        GlyphEntry::new(0x0f0f0f0f00000000, true, '▝'),
        GlyphEntry::new(0x0f0f0f0ff0f0f0f0, true, '▞'),
        GlyphEntry::new(0x0f0f0f0fffffffff, true, '▟'),
    ]
}

pub open spec fn has_pattern(s: Seq<GlyphEntry>, p: u64) -> bool {
    exists|i: int| 0 <= i < s.len() && s[i].pattern == p
}

/// Registering an entry appends it, unless its pattern is already taken.
pub open spec fn register(s: Seq<GlyphEntry>, e: GlyphEntry) -> Seq<GlyphEntry> {
    if has_pattern(s, e.pattern) {
        s
    } else {
        s.push(e)
    }
}

/// The catalog that registering the templates of `t` in order produces.
pub open spec fn register_all(t: Seq<GlyphEntry>) -> Seq<GlyphEntry>
    decreases t.len(),
{
    if t.len() == 0 {
        Seq::empty()
    } else {
        register(register_all(t.drop_last()), t.last())
    }
}

pub open spec fn distinct_patterns(s: Seq<GlyphEntry>) -> bool {
    forall|i: int, j: int| 0 <= i < j < s.len() ==> s[i].pattern != s[j].pattern
}

/// The entry registered under pattern `p`, if there is one.
pub open spec fn lookup_spec(s: Seq<GlyphEntry>, p: u64) -> Option<GlyphEntry> {
    if has_pattern(s, p) {
        Some(s[choose|i: int| 0 <= i < s.len() && s[i].pattern == p])
    } else {
        None
    }
}

/// The entries whose set bits are foreground, in catalog order.
pub open spec fn upright(s: Seq<GlyphEntry>) -> Seq<GlyphEntry> {
    s.filter(|e: GlyphEntry| e.polarity)
}

pub open spec fn patterns(s: Seq<GlyphEntry>) -> Seq<u64> {
    s.map_values(|e: GlyphEntry| e.pattern)
}

/// The entries a search may pick from: all of them when both colours are
/// opaque, else only the upright ones.
pub open spec fn candidates_spec(s: Seq<GlyphEntry>, opaque: bool) -> Seq<GlyphEntry> {
    if opaque {
        s
    } else {
        upright(s)
    }
}

/// An append-only table from coverage pattern to glyph entry. Patterns are
/// distinct; entries keep the order in which they were registered.
pub struct Catalog {
    entries: Vec<GlyphEntry>,
    keys: Vec<u64>,
    upright_entries: Vec<GlyphEntry>,
    upright_keys: Vec<u64>,
}

impl View for Catalog {
    type V = Seq<GlyphEntry>;

    closed spec fn view(&self) -> Seq<GlyphEntry> {
        self.entries@
    }
}

proof fn lemma_filter_push(s: Seq<GlyphEntry>, e: GlyphEntry)
    ensures
        upright(s.push(e)) == if e.polarity {
            upright(s).push(e)
        } else {
            upright(s)
        },
{
    reveal(Seq::filter);
    assert(s.push(e).drop_last() =~= s);
}

impl Catalog {
    pub closed spec fn wf(&self) -> bool {
        &&& distinct_patterns(self.entries@)
        &&& self.keys@ == patterns(self.entries@)
        &&& self.upright_entries@ == upright(self.entries@)
        &&& self.upright_keys@ == patterns(self.upright_entries@)
    }

    pub fn new() -> (r: Catalog)
        ensures
            r.wf(),
            r@ == Seq::<GlyphEntry>::empty(),
    {
        let r = Catalog {
            entries: Vec::new(),
            keys: Vec::new(),
            upright_entries: Vec::new(),
            upright_keys: Vec::new(),
        };
        assert(r.keys@ =~= patterns(r.entries@));
        assert(r.upright_entries@ =~= upright(r.entries@));
        assert(r.upright_keys@ =~= patterns(r.upright_entries@));
        r
    }

    /// Position of `pattern` among the registered entries.
    fn position(&self, pattern: u64) -> (r: Option<usize>)
        requires
            self.wf(),
        ensures
            r is None <==> !has_pattern(self@, pattern),
            r matches Some(i) ==> i < self@.len() && self@[i as int].pattern == pattern,
    {
        let mut i: usize = 0;
        while i < self.keys.len()
            invariant
                self.wf(),
                i <= self.keys@.len(),
                forall|j: int| 0 <= j < i ==> self@[j].pattern != pattern,
            decreases self.keys@.len() - i,
        {
            if self.keys[i] == pattern {
                return Some(i);
            }
            i += 1;
        }
        None
    }

    /// Registers an entry; a pattern that is already registered keeps its
    /// first entry.
    pub fn insert(&mut self, pattern: u64, polarity: bool, glyph: char)
        requires
            old(self).wf(),
        ensures
            final(self).wf(),
            final(self)@ == register(old(self)@, entry(pattern, polarity, glyph)),
    {
        match self.position(pattern) {
            Some(_) => {},
            None => {
                let e = GlyphEntry::new(pattern, polarity, glyph);
                proof {
                    lemma_filter_push(self.entries@, e);
                }
                self.entries.push(e);
                self.keys.push(pattern);
                if polarity {
                    self.upright_entries.push(e);
                    self.upright_keys.push(pattern);
                }
                assert(self.keys@ =~= patterns(self.entries@));
                assert(self.upright_keys@ =~= patterns(self.upright_entries@));
            },
        }
    }

    /// The entry registered under `pattern`, if any.
    pub fn lookup(&self, pattern: u64) -> (r: Option<GlyphEntry>)
        requires
            self.wf(),
        ensures
            r == lookup_spec(self@, pattern),
    {
        match self.position(pattern) {
            Some(i) => {
                let ghost k = choose|k: int| 0 <= k < self@.len() && self@[k].pattern == pattern;
                assert(k == i as int) by {
                    if k < i as int {
                    } else if k > i as int {
                    }
                }
                Some(self.entries[i])
            },
            None => None,
        }
    }

    /// Every entry, in registration order.
    pub fn all_entries(&self) -> (r: &Vec<GlyphEntry>)
        ensures
            r@ == self@,
    {
        &self.entries
    }

    /// The entries a nearest-pattern search may pick from, and their patterns.
    pub fn candidates(&self, opaque: bool) -> (r: (&Vec<u64>, &Vec<GlyphEntry>))
        requires
            self.wf(),
        ensures
            r.1@ == candidates_spec(self@, opaque),
            r.0@ == patterns(r.1@),
    {
        if opaque {
            (&self.keys, &self.entries)
        } else {
            (&self.upright_keys, &self.upright_entries)
        }
    }

    /// A catalog holding the templates of `t`, registered in order.
    pub fn from_templates(t: &Vec<GlyphEntry>) -> (r: Catalog)
        ensures
            r.wf(),
            r@ == register_all(t@),
    {
        let mut r = Catalog::new();
        let mut i: usize = 0;
        while i < t.len()
            invariant
                i <= t@.len(),
                r.wf(),
                r@ == register_all(t@.subrange(0, i as int)),
            decreases t@.len() - i,
        {
            let e = t[i];
            r.insert(e.pattern, e.polarity, e.glyph);
            assert(t@.subrange(0, i + 1).drop_last() =~= t@.subrange(0, i as int));
            i += 1;
        }
        assert(t@.subrange(0, t@.len() as int) =~= t@);
        r
    }

    /// The standard catalog: line-drawing rules, shade bars in both
    /// polarities, dithered fills, edge marks and quadrant blocks.
    pub fn standard() -> (r: Catalog)
        ensures
            r.wf(),
            r@ == register_all(template_table()),
    {
        Catalog::from_templates(&glyph_templates())
    }
}

} // verus!
