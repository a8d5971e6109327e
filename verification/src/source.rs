//! The glyph source: everything the font tables provide, as plain values.
//!
//! A `GlyphSource` mirrors the narrow capability set the rest of the crate
//! reads from a font: global vertical metrics, the character-map subtables,
//! per-glyph advance widths and bounding boxes, and optional kerning pairs.
//! A synthetic source can be written down directly; a parsed font binary is
//! turned into the same shape.
//!
//! The small association-list helpers here are the crate's maps: lookup
//! returns the value of the first pair carrying the key.

use vstd::prelude::*;

verus! {

/// One character-map subtable: whether it is a Unicode subtable, and its
/// (codepoint, glyph id) pairs in table order.
#[derive(Clone, Debug)]
pub struct CmapSubtable {
    pub unicode: bool,
    pub mappings: Vec<(u32, u16)>,
}

/// Everything a font hands to table construction, as plain values.
/// `cmap: None` models a font with no character-map table at all;
/// `kerning: None` models a font with no kerning table (not an error).
#[derive(Clone, Debug)]
pub struct GlyphSource {
    pub units_per_em: u16,
    pub ascender: i16,
    pub descender: i16,
    pub line_gap: i16,
    pub cmap: Option<Vec<CmapSubtable>>,
    pub advances: Vec<(u16, u16)>,
    pub bounding_boxes: Vec<(u16, (i16, i16))>,
    pub kerning: Option<Vec<(u16, u16, i16)>>,
}

/// First-match lookup in a pair sequence keyed by `u16`.
pub open spec fn spec_find_u16<V>(s: Seq<(u16, V)>, k: u16) -> Option<V>
    decreases s.len(),
{
    if s.len() == 0 {
        None
    } else if s[0].0 == k {
        Some(s[0].1)
    } else {
        spec_find_u16(s.skip(1), k)
    }
}

/// First-match lookup in a pair sequence keyed by `u32`.
pub open spec fn spec_find_u32<V>(s: Seq<(u32, V)>, k: u32) -> Option<V>
    decreases s.len(),
{
    if s.len() == 0 {
        None
    } else if s[0].0 == k {
        Some(s[0].1)
    } else {
        spec_find_u32(s.skip(1), k)
    }
}

proof fn lemma_find_u16_skip<V>(s: Seq<(u16, V)>, k: u16, i: int)
    requires
        0 <= i <= s.len(),
        forall|j: int| 0 <= j < i ==> (#[trigger] s[j]).0 != k,
    ensures
        spec_find_u16(s, k) == spec_find_u16(s.skip(i), k),
    decreases i,
{
    if i > 0 {
        assert(s.skip(1).skip(i - 1) =~= s.skip(i));
        assert(forall|j: int| 0 <= j < i - 1 ==> (#[trigger] s.skip(1)[j]).0 != k);
        lemma_find_u16_skip(s.skip(1), k, i - 1);
    } else {
        assert(s.skip(0) =~= s);
    }
}

proof fn lemma_find_u32_skip<V>(s: Seq<(u32, V)>, k: u32, i: int)
    requires
        0 <= i <= s.len(),
        forall|j: int| 0 <= j < i ==> (#[trigger] s[j]).0 != k,
    ensures
        spec_find_u32(s, k) == spec_find_u32(s.skip(i), k),
    decreases i,
{
    if i > 0 {
        assert(s.skip(1).skip(i - 1) =~= s.skip(i));
        assert(forall|j: int| 0 <= j < i - 1 ==> (#[trigger] s.skip(1)[j]).0 != k);
        lemma_find_u32_skip(s.skip(1), k, i - 1);
    } else {
        assert(s.skip(0) =~= s);
    }
}

/// First-match lookup, executable form.
pub fn find_u16<V: Copy>(v: &Vec<(u16, V)>, k: u16) -> (r: Option<V>)
    ensures
        r == spec_find_u16(v@, k),
{
    let n = v.len();
    for i in 0..n
        invariant
            n == v@.len(),
            forall|j: int| 0 <= j < i ==> (#[trigger] v@[j]).0 != k,
    {
        if v[i].0 == k {
            proof {
                lemma_find_u16_skip(v@, k, i as int);
                assert(v@.skip(i as int)[0] == v@[i as int]);
            }
            return Some(v[i].1);
        }
    }
    proof {
        lemma_find_u16_skip(v@, k, n as int);
        assert(v@.skip(n as int).len() == 0);
    }
    None
}

/// First-match lookup, executable form.
pub fn find_u32<V: Copy>(v: &Vec<(u32, V)>, k: u32) -> (r: Option<V>)
    ensures
        r == spec_find_u32(v@, k),
{
    let n = v.len();
    for i in 0..n
        invariant
            n == v@.len(),
            forall|j: int| 0 <= j < i ==> (#[trigger] v@[j]).0 != k,
    {
        if v[i].0 == k {
            proof {
                lemma_find_u32_skip(v@, k, i as int);
                assert(v@.skip(i as int)[0] == v@[i as int]);
            }
            return Some(v[i].1);
        }
    }
    proof {
        lemma_find_u32_skip(v@, k, n as int);
        assert(v@.skip(n as int).len() == 0);
    }
    None
}

/// A found value comes from an actual entry of the list.
pub proof fn lemma_find_u16_entry<V>(s: Seq<(u16, V)>, k: u16)
    ensures
        spec_find_u16(s, k) matches Some(v) ==> exists|i: int|
            0 <= i < s.len() && s[i] == (k, v),
    decreases s.len(),
{
    if s.len() > 0 && s[0].0 != k {
        lemma_find_u16_entry(s.skip(1), k);
        match spec_find_u16(s, k) {
            Some(v) => {
                let i = choose|i: int| 0 <= i < s.skip(1).len() && s.skip(1)[i] == (k, v);
                assert(s[i + 1] == (k, v));
            },
            None => {},
        }
    } else if s.len() > 0 {
        assert(s[0] == (k, s[0].1));
    }
}

/// The list after inserting `(k, val)` only if `k` is absent (first insertion
/// wins; later pairs for the same key are dropped).
pub open spec fn spec_insert_absent_u16<V>(s: Seq<(u16, V)>, k: u16, val: V) -> Seq<(u16, V)> {
    if spec_find_u16(s, k) is Some {
        s
    } else {
        s.push((k, val))
    }
}

/// See `spec_insert_absent_u16`.
pub open spec fn spec_insert_absent_u32<V>(s: Seq<(u32, V)>, k: u32, val: V) -> Seq<(u32, V)> {
    if spec_find_u32(s, k) is Some {
        s
    } else {
        s.push((k, val))
    }
}

/// Inserts `(k, val)` unless `k` is already bound.
pub fn insert_absent_u16<V: Copy>(v: &mut Vec<(u16, V)>, k: u16, val: V)
    ensures
        final(v)@ == spec_insert_absent_u16(old(v)@, k, val),
{
    if find_u16(v, k).is_none() {
        v.push((k, val));
    }
}

/// Inserts `(k, val)` unless `k` is already bound.
pub fn insert_absent_u32<V: Copy>(v: &mut Vec<(u32, V)>, k: u32, val: V)
    ensures
        final(v)@ == spec_insert_absent_u32(old(v)@, k, val),
{
    if find_u32(v, k).is_none() {
        v.push((k, val));
    }
}

} // verus!
