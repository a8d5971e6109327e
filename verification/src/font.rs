//! The font aggregate: glyph tables, derived metrics, and text layout.
//!
//! A `Font` is built once from a glyph source (a parsed font binary or a
//! synthetic in-memory source) and is immutable afterwards.  Construction
//! walks every Unicode character-map subtable and builds three maps, each
//! first-insertion-wins: codepoint to glyph id, glyph id to character, and
//! glyph id to base metrics.  Layout then resolves kerning per adjacent
//! glyph pair and applies the `1000 / unitsPerEm` scale and the font size,
//! all in exact rational arithmetic.

use vstd::prelude::*;
use vstd::string::StrSliceExecFns;
use vstd::utf8::is_scalar;
use crate::ratio::Ratio;
use crate::glyphs::GlyphMetrics;
use crate::layout_run::LayoutRun;
use crate::source::CmapSubtable;
use crate::source::GlyphSource;
use crate::source::find_u16;
use crate::source::find_u32;
use crate::source::insert_absent_u16;
use crate::source::insert_absent_u32;
use crate::source::spec_find_u16;
use crate::source::spec_find_u32;
use crate::source::spec_insert_absent_u16;
use crate::source::spec_insert_absent_u32;
use crate::source::lemma_find_u16_entry;
use crate::ttf::face_kern_pair;
use crate::ttf::face_kerning;

verus! {

/// A fault while building a `Font`: the file could not be read, the face
/// could not be parsed (or reported no usable scale), or the face has no
/// character-map table.
#[derive(Clone, Copy, Debug, PartialEq, Eq, Structural)]
pub enum FontFault {
    FileUnreadable,
    FaceUnparseable,
    MissingCmap,
}

/// A fault while laying out text: a character with no mapped glyph, or a
/// mapped glyph id with no advance width (treated as data corruption).
#[derive(Clone, Copy, Debug, PartialEq, Eq, Structural)]
pub enum LayoutFault {
    GlyphNotMapped,
    MetricsMissing,
}

/// Derived scalar metrics, computed once at load time.  `scale` is exactly
/// `1000 / unitsPerEm`; the `_scaled` fields and `line_gap` are the raw
/// vertical metrics times that scale, kept exact.
#[derive(Clone, Copy, Debug, PartialEq, Eq, Structural)]
pub struct FontMetrics {
    pub ascent: i64,
    pub descent: i64,
    pub scale: Ratio,
    pub ascender_scaled: Ratio,
    pub descender_scaled: Ratio,
    pub line_gap: Ratio,
}

impl Default for FontMetrics {
    /// All-zero metrics (with well-formed unit denominators).
    fn default() -> (r: FontMetrics)
        ensures
            r.ascent == 0 && r.descent == 0,
            r.scale.num == 0 && r.scale.den == 1,
            r.ascender_scaled.num == 0 && r.ascender_scaled.den == 1,
            r.descender_scaled.num == 0 && r.descender_scaled.den == 1,
            r.line_gap.num == 0 && r.line_gap.den == 1,
    {
        let zero = Ratio { num: 0, den: 1 };
        FontMetrics {
            ascent: 0,
            descent: 0,
            scale: zero,
            ascender_scaled: zero,
            descender_scaled: zero,
            line_gap: zero,
        }
    }
}

/// Where kerning answers come from: no kerning table at all, explicit
/// pairs `(left, right, adjustment)` from a synthetic source, or the first
/// kerning subtable of a parsed face.
pub enum KernLookup {
    Missing,
    Pairs(Vec<(u16, u16, i16)>),
    Parsed(owned_ttf_parser::OwnedFace),
}

/// First-match lookup of a kerning pair.
pub open spec fn spec_kern_pairs(s: Seq<(u16, u16, i16)>, left: u16, right: u16) -> Option<i16>
    decreases s.len(),
{
    if s.len() == 0 {
        None
    } else if s[0].0 == left && s[0].1 == right {
        Some(s[0].2)
    } else {
        spec_kern_pairs(s.skip(1), left, right)
    }
}

proof fn lemma_kern_pairs_skip(s: Seq<(u16, u16, i16)>, left: u16, right: u16, i: int)
    requires
        0 <= i <= s.len(),
        forall|j: int|
            0 <= j < i ==> !((#[trigger] s[j]).0 == left && s[j].1 == right),
    ensures
        spec_kern_pairs(s, left, right) == spec_kern_pairs(s.skip(i), left, right),
    decreases i,
{
    if i > 0 {
        assert(s.skip(1).skip(i - 1) =~= s.skip(i));
        assert(forall|j: int|
            0 <= j < i - 1 ==> !((#[trigger] s.skip(1)[j]).0 == left && s.skip(1)[j].1 == right));
        lemma_kern_pairs_skip(s.skip(1), left, right, i - 1);
    } else {
        assert(s.skip(0) =~= s);
    }
}

impl KernLookup {
    /// The kerning adjustment for the pair; absence of a table or of the
    /// pair resolves to 0 (a degraded-but-valid mode, never an error).
    pub open spec fn spec_kern(self, left: u16, right: u16) -> i16 {
        match self {
            KernLookup::Missing => 0,
            KernLookup::Pairs(v) => spec_kern_pairs(v@, left, right).unwrap_or(0),
            KernLookup::Parsed(face) => face_kern_pair(face, left, right).unwrap_or(0),
        }
    }

    /// Resolves the kerning adjustment for a left/right glyph pair.
    pub fn kern(&self, left: u16, right: u16) -> (k: i16)
        ensures
            k == self.spec_kern(left, right),
    {
        match self {
            KernLookup::Missing => 0,
            KernLookup::Pairs(v) => kern_from_pairs(v, left, right),
            KernLookup::Parsed(face) => {
                match face_kerning(face, left, right) {
                    Some(k) => k,
                    None => 0,
                }
            },
        }
    }
}

/// First-match scan of explicit kerning pairs; 0 when the pair is absent.
fn kern_from_pairs(v: &Vec<(u16, u16, i16)>, left: u16, right: u16) -> (k: i16)
    ensures
        k == spec_kern_pairs(v@, left, right).unwrap_or(0),
{
    let n = v.len();
    for i in 0..n
        invariant
            n == v@.len(),
            forall|j: int|
                0 <= j < i ==> !((#[trigger] v@[j]).0 == left && v@[j].1 == right),
    {
        if v[i].0 == left && v[i].1 == right {
            proof {
                lemma_kern_pairs_skip(v@, left, right, i as int);
                assert(v@.skip(i as int)[0] == v@[i as int]);
            }
            return v[i].2;
        }
    }
    proof {
        lemma_kern_pairs_skip(v@, left, right, n as int);
    }
    0
}

/// The Unicode scalar with the given codepoint value.
pub open spec fn char_of(cp: u32) -> char {
    cp as char
}

/// Relies on `char::from_u32` of std: `Some` exactly for Unicode scalar
/// values (codepoints below 0x110000 that are not surrogates).
#[verifier::external_body]
pub fn char_from_codepoint(cp: u32) -> (r: Option<char>)
    ensures
        r is Some <==> is_scalar(cp),
        r matches Some(c) ==> c as u32 == cp,
{
    char::from_u32(cp)
}

/// The height of a glyph in font units: the vertical extent of its bounding
/// box minus the descender; 1000 font units when no box is available.
pub open spec fn spec_glyph_height(
    bboxes: Seq<(u16, (i16, i16))>,
    descender: i16,
    gid: u16,
) -> int {
    match spec_find_u16(bboxes, gid) {
        Some(b) => b.1 - b.0 - descender,
        None => 1000,
    }
}

/// Base metrics for one glyph: the advance width in font units (absent
/// advance means no metrics at all) and the height from the bounding box.
pub open spec fn spec_calc_glyph_metrics(
    advances: Seq<(u16, u16)>,
    bboxes: Seq<(u16, (i16, i16))>,
    descender: i16,
    gid: u16,
    c: char,
) -> Option<GlyphMetrics> {
    match spec_find_u16(advances, gid) {
        None => None,
        Some(w) => Some(
            GlyphMetrics {
                id: gid,
                character: c,
                width: Ratio { num: w as i128, den: 1 },
                height: spec_glyph_height(bboxes, descender, gid) as i64,
                kern_right: 0,
            },
        ),
    }
}

fn calc_glyph_metrics(
    advances: &Vec<(u16, u16)>,
    bboxes: &Vec<(u16, (i16, i16))>,
    descender: i16,
    gid: u16,
    c: char,
) -> (r: Option<GlyphMetrics>)
    ensures
        r == spec_calc_glyph_metrics(advances@, bboxes@, descender, gid, c),
{
    match find_u16(advances, gid) {
        None => None,
        Some(w) => {
            let height: i64 = match find_u16(bboxes, gid) {
                Some(b) => (b.1 as i64) - (b.0 as i64) - (descender as i64),
                None => 1000,
            };
            Some(GlyphMetrics::new(gid, w as i64, height, c))
        },
    }
}

/// The (codepoint, glyph id) pairs of all Unicode subtables, in subtable
/// order then table order; non-Unicode subtables contribute nothing.
pub open spec fn spec_unicode_pairs(subs: Seq<CmapSubtable>) -> Seq<(u32, u16)>
    decreases subs.len(),
{
    if subs.len() == 0 {
        Seq::empty()
    } else {
        spec_unicode_pairs(subs.drop_last()) + (if subs.last().unicode {
            subs.last().mappings@
        } else {
            Seq::empty()
        })
    }
}

/// One construction step: a pair with glyph id 0 or an invalid codepoint is
/// skipped; otherwise the three maps gain the pair unless its key is
/// already bound (first insertion wins), and the metrics map gains an entry
/// only when the glyph has an advance width.
pub open spec fn spec_tables_step(
    advances: Seq<(u16, u16)>,
    bboxes: Seq<(u16, (i16, i16))>,
    descender: i16,
    state: (Seq<(u32, u16)>, Seq<(u16, char)>, Seq<(u16, GlyphMetrics)>),
    p: (u32, u16),
) -> (Seq<(u32, u16)>, Seq<(u16, char)>, Seq<(u16, GlyphMetrics)>) {
    if p.1 > 0 && is_scalar(p.0) {
        let c = char_of(p.0);
        let mets = match spec_calc_glyph_metrics(advances, bboxes, descender, p.1, c) {
            Some(m) => spec_insert_absent_u16(state.2, p.1, m),
            None => state.2,
        };
        (
            spec_insert_absent_u32(state.0, p.0, p.1),
            spec_insert_absent_u16(state.1, p.1, c),
            mets,
        )
    } else {
        state
    }
}

/// The three glyph maps that construction builds from a pair stream:
/// codepoint to glyph id, glyph id to character, glyph id to base metrics.
pub open spec fn spec_glyph_tables(
    advances: Seq<(u16, u16)>,
    bboxes: Seq<(u16, (i16, i16))>,
    descender: i16,
    pairs: Seq<(u32, u16)>,
) -> (Seq<(u32, u16)>, Seq<(u16, char)>, Seq<(u16, GlyphMetrics)>)
    decreases pairs.len(),
{
    if pairs.len() == 0 {
        (Seq::empty(), Seq::empty(), Seq::empty())
    } else {
        spec_tables_step(
            advances,
            bboxes,
            descender,
            spec_glyph_tables(advances, bboxes, descender, pairs.drop_last()),
            pairs.last(),
        )
    }
}

proof fn lemma_tables_push(
    advances: Seq<(u16, u16)>,
    bboxes: Seq<(u16, (i16, i16))>,
    descender: i16,
    pairs: Seq<(u32, u16)>,
    p: (u32, u16),
)
    ensures
        spec_glyph_tables(advances, bboxes, descender, pairs.push(p)) == spec_tables_step(
            advances,
            bboxes,
            descender,
            spec_glyph_tables(advances, bboxes, descender, pairs),
            p,
        ),
{
    assert(pairs.push(p).drop_last() =~= pairs);
    assert(pairs.push(p).last() == p);
}

/// Every metrics entry the fold produces is well-formed: keyed by its own
/// glyph id, no kerning yet, an exact font-unit width within `u16` range,
/// and a height within the range bounding boxes and descenders can reach.
pub open spec fn spec_metrics_entries_wf(mets: Seq<(u16, GlyphMetrics)>) -> bool {
    forall|i: int|
        0 <= i < mets.len() ==> {
            let m = (#[trigger] mets[i]).1;
            &&& m.id == mets[i].0
            &&& m.kern_right == 0
            &&& m.width.den == 1
            &&& 0 <= m.width.num <= 65535
            &&& -100000 <= m.height <= 100000
        }
}

proof fn lemma_tables_wf(
    advances: Seq<(u16, u16)>,
    bboxes: Seq<(u16, (i16, i16))>,
    descender: i16,
    pairs: Seq<(u32, u16)>,
)
    ensures
        spec_metrics_entries_wf(spec_glyph_tables(advances, bboxes, descender, pairs).2),
    decreases pairs.len(),
{
    if pairs.len() > 0 {
        lemma_tables_wf(advances, bboxes, descender, pairs.drop_last());
    }
}

/// The font aggregate.  Owns the raw font bytes (kept verbatim for
/// embedding), the kerning lookup, and the three glyph maps built once at
/// construction.
pub struct Font {
    pub name: String,
    pub raw_bytes: Vec<u8>,
    pub kern: KernLookup,
    pub units_per_em: u16,
    pub glyph_metrics: Vec<(u16, GlyphMetrics)>,
    pub glyph_ids: Vec<(u16, char)>,
    pub char_map: Vec<(u32, u16)>,
    pub metrics: FontMetrics,
}

impl Font {
    /// Well-formedness: a positive em square, derived metrics that are
    /// exactly the raw vertical metrics under the `1000 / unitsPerEm`
    /// scale, and well-formed glyph-metric entries.
    pub open spec fn wf(self) -> bool {
        &&& self.units_per_em > 0
        &&& -32768 <= self.metrics.ascent <= 32767
        &&& -32768 <= self.metrics.descent <= 32767
        &&& self.metrics.scale.num == 1000
        &&& self.metrics.scale.den == self.units_per_em
        &&& self.metrics.ascender_scaled.num == self.metrics.ascent * 1000
        &&& self.metrics.ascender_scaled.den == self.units_per_em
        &&& self.metrics.descender_scaled.num == self.metrics.descent * 1000
        &&& self.metrics.descender_scaled.den == self.units_per_em
        &&& -32768000 <= self.metrics.line_gap.num <= 32767000
        &&& self.metrics.line_gap.den == self.units_per_em
        &&& spec_metrics_entries_wf(self.glyph_metrics@)
    }

    /// The glyph id the character map binds to this character.
    pub open spec fn spec_char_gid(self, c: char) -> Option<u16> {
        spec_find_u32(self.char_map@, c as u32)
    }

    /// The base metrics bound to this glyph id.
    pub open spec fn spec_metrics_of(self, gid: u16) -> Option<GlyphMetrics> {
        spec_find_u16(self.glyph_metrics@, gid)
    }

    /// The base metrics reached through a character: its mapped glyph's
    /// entry in the metrics map, `None` when either binding is absent.
    pub open spec fn spec_char_metrics(self, c: char) -> Option<GlyphMetrics> {
        match self.spec_char_gid(c) {
            None => None,
            Some(g) => self.spec_metrics_of(g),
        }
    }

    /// The fault this single character would cause in a layout run, if any.
    pub open spec fn spec_char_fault(self, c: char) -> Option<LayoutFault> {
        match self.spec_char_gid(c) {
            None => Some(LayoutFault::GlyphNotMapped),
            Some(g) => match self.spec_metrics_of(g) {
                None => Some(LayoutFault::MetricsMissing),
                Some(_) => None,
            },
        }
    }

    /// The first fault in the text, if any: the whole run aborts on it.
    pub open spec fn spec_run_fault(self, text: Seq<char>) -> Option<LayoutFault>
        decreases text.len(),
    {
        if text.len() == 0 {
            None
        } else if self.spec_char_fault(text[0]) is Some {
            self.spec_char_fault(text[0])
        } else {
            self.spec_run_fault(text.skip(1))
        }
    }

    proof fn lemma_run_fault_skip(self, text: Seq<char>, i: int)
        requires
            0 <= i <= text.len(),
            forall|j: int| 0 <= j < i ==> self.spec_char_fault(#[trigger] text[j]) is None,
        ensures
            self.spec_run_fault(text) == self.spec_run_fault(text.skip(i)),
        decreases i,
    {
        if i > 0 {
            assert(text.skip(1).skip(i - 1) =~= text.skip(i));
            assert(forall|j: int|
                0 <= j < i - 1 ==> self.spec_char_fault(#[trigger] text.skip(1)[j]) is None);
            self.lemma_run_fault_skip(text.skip(1), i - 1);
        } else {
            assert(text.skip(0) =~= text);
        }
    }

    proof fn lemma_run_fault_all_clear(self, text: Seq<char>)
        requires
            self.spec_run_fault(text) is None,
        ensures
            forall|i: int| 0 <= i < text.len() ==> self.spec_char_fault(#[trigger] text[i]) is None,
        decreases text.len(),
    {
        if text.len() > 0 {
            self.lemma_run_fault_all_clear(text.skip(1));
            assert forall|i: int| 0 <= i < text.len() implies self.spec_char_fault(
                #[trigger] text[i],
            ) is None by {
                if i > 0 {
                    assert(text.skip(1)[i - 1] == text[i]);
                }
            }
        }
    }

    /// The glyph metrics for position `i` of the text, in font units, with
    /// the kerning owed against the preceding glyph recorded on it (the
    /// first glyph of a run has no predecessor and keeps kerning 0).
    pub open spec fn spec_glyph_at(self, text: Seq<char>, i: int) -> GlyphMetrics {
        let g = self.spec_char_gid(text[i]).unwrap();
        let m = self.spec_metrics_of(g).unwrap();
        if i == 0 {
            m
        } else {
            GlyphMetrics {
                kern_right: self.kern.spec_kern(self.spec_char_gid(text[i - 1]).unwrap(), g) as i64,
                ..m
            }
        }
    }

    /// The glyph metrics for position `i` after layout: kerning folded into
    /// the width, then the `1000 / unitsPerEm` scale, then `size / 1000`.
    /// The height stays in raw font units on purpose.
    pub open spec fn spec_laid_glyph_at(self, text: Seq<char>, i: int, size: u32) -> GlyphMetrics {
        let m = self.spec_glyph_at(text, i);
        GlyphMetrics {
            width: Ratio {
                num: ((m.width.num + m.kern_right) * 1000 * size) as i128,
                den: (self.units_per_em * 1000) as u64,
            },
            ..m
        }
    }

    /// `(ascenderScaled + lineGapScaled - descenderScaled) / 1000`.
    pub open spec fn spec_calc_line_height(self) -> Ratio {
        Ratio {
            num: (self.metrics.ascender_scaled.num + self.metrics.line_gap.num
                - self.metrics.descender_scaled.num) as i128,
            den: (self.units_per_em * 1000) as u64,
        }
    }

    /// The line height for a font size: `spec_calc_line_height` times size.
    pub open spec fn spec_line_height(self, size: u32) -> Ratio {
        Ratio {
            num: (self.spec_calc_line_height().num * size) as i128,
            den: (self.units_per_em * 1000) as u64,
        }
    }

    /// The line gap for a font size: `lineGapScaled / 1000` times size.
    pub open spec fn spec_line_gap(self, size: u32) -> Ratio {
        Ratio {
            num: (self.metrics.line_gap.num * size) as i128,
            den: (self.units_per_em * 1000) as u64,
        }
    }

    /// The derived scalar metrics.  Under well-formedness the scale is
    /// exactly `1000 / unitsPerEm`.
    pub fn font_metrics(&self) -> (r: FontMetrics)
        ensures
            r == self.metrics,
            self.wf() ==> r.scale.num == 1000 && r.scale.den == self.units_per_em,
    {
        self.metrics
    }

    /// The glyph id for a character, `None` when the character map does not
    /// bind it.
    pub fn glyph_id_for_char(&self, c: char) -> (r: Option<u16>)
        ensures
            r == self.spec_char_gid(c),
    {
        find_u32(&self.char_map, c as u32)
    }

    /// The base metrics for a character: its mapped glyph's entry in the
    /// metrics map, `None` when either binding is absent.
    pub fn glyph_metrics_for_char(&self, c: char) -> (r: Option<GlyphMetrics>)
        ensures
            r == self.spec_char_metrics(c),
    {
        match self.glyph_id_for_char(c) {
            Some(gid) => find_u16(&self.glyph_metrics, gid),
            None => None,
        }
    }

    /// `(ascenderScaled + lineGapScaled - descenderScaled) / 1000`, exact.
    pub fn calc_line_height(&self) -> (r: Ratio)
        requires
            self.wf(),
        ensures
            r == self.spec_calc_line_height(),
    {
        let num = self.metrics.ascender_scaled.num + self.metrics.line_gap.num
            - self.metrics.descender_scaled.num;
        Ratio { num, den: (self.units_per_em as u64) * 1000 }
    }

    /// The line height for the given font size, exact.
    pub fn line_height(&self, font_size: u32) -> (r: Ratio)
        requires
            self.wf(),
        ensures
            r == self.spec_line_height(font_size),
    {
        let lh = self.calc_line_height();
        proof {
            lemma_small_mul_bound(lh.num as int, font_size as int);
        }
        Ratio { num: lh.num * (font_size as i128), den: lh.den }
    }

    /// The line gap for the given font size: `lineGapScaled / 1000 × size`.
    pub fn line_gap(&self, font_size: u32) -> (r: Ratio)
        requires
            self.wf(),
        ensures
            r == self.spec_line_gap(font_size),
    {
        proof {
            lemma_small_mul_bound(self.metrics.line_gap.num as int, font_size as int);
        }
        Ratio {
            num: self.metrics.line_gap.num * (font_size as i128),
            den: (self.units_per_em as u64) * 1000,
        }
    }

    proof fn lemma_glyph_at_bounds(self, text: Seq<char>, i: int)
        requires
            self.wf(),
            0 <= i < text.len(),
            self.spec_char_fault(text[i]) is None,
        ensures
            self.spec_glyph_at(text, i).width.den == 1,
            0 <= self.spec_glyph_at(text, i).width.num <= 65535,
            -32768 <= self.spec_glyph_at(text, i).kern_right <= 32767,
    {
        let gid = self.spec_char_gid(text[i]).unwrap();
        lemma_find_u16_entry(self.glyph_metrics@, gid);
    }

    /// The glyph run for a text, in font units, with per-pair kerning
    /// recorded on each glyph but not yet applied.  Fails on the first
    /// character with no mapped glyph or no metrics; the whole run aborts
    /// rather than skipping the character.
    pub fn run(&self, text: &str) -> (r: Result<Vec<GlyphMetrics>, LayoutFault>)
        ensures
            match r {
                Ok(v) => {
                    &&& self.spec_run_fault(text@) is None
                    &&& (forall|i: int|
                        0 <= i < text@.len() ==> self.spec_char_fault(#[trigger] text@[i]) is None)
                    &&& v@.len() == text@.len()
                    &&& forall|i: int|
                        0 <= i < text@.len() ==> v@[i] == self.spec_glyph_at(text@, i)
                },
                Err(f) => Some(f) == self.spec_run_fault(text@),
            },
    {
        let n = text.unicode_len();
        let mut out: Vec<GlyphMetrics> = Vec::new();
        let mut prev: u16 = 0;
        for i in 0..n
            invariant
                n == text@.len(),
                out@.len() == i,
                forall|j: int| 0 <= j < i ==> self.spec_char_fault(#[trigger] text@[j]) is None,
                forall|j: int| 0 <= j < i ==> out@[j] == self.spec_glyph_at(text@, j),
                i > 0 ==> Some(prev) == self.spec_char_gid(text@[i - 1]),
        {
            let c = text.get_char(i);
            let gid = match self.glyph_id_for_char(c) {
                Some(g) => g,
                None => {
                    proof {
                        self.lemma_run_fault_skip(text@, i as int);
                        assert(text@.skip(i as int)[0] == text@[i as int]);
                    }
                    return Err(LayoutFault::GlyphNotMapped);
                },
            };
            let m = match find_u16(&self.glyph_metrics, gid) {
                Some(m) => m,
                None => {
                    proof {
                        self.lemma_run_fault_skip(text@, i as int);
                        assert(text@.skip(i as int)[0] == text@[i as int]);
                    }
                    return Err(LayoutFault::MetricsMissing);
                },
            };
            let mut glyph = m;
            if i > 0 {
                let k = self.kern.kern(prev, gid);
                glyph.kern_right = k as i64;
            }
            out.push(glyph);
            prev = gid;
        }
        proof {
            self.lemma_run_fault_skip(text@, n as int);
            assert(text@.skip(n as int).len() == 0);
        }
        Ok(out)
    }

    /// What a successful `layout_run` result looks like: the inputs echoed
    /// back, one laid-out glyph per character, and the exact line metrics
    /// for the size.  The result is a function of the font, text and size
    /// alone, which is what makes layout reproducible.
    pub open spec fn spec_layout_run_matches(self, text: Seq<char>, size: u32, lr: LayoutRun) -> bool {
        &&& lr.text@ == text
        &&& lr.font@ == self.name@
        &&& lr.font_size == size
        &&& lr.glyph_run@.len() == text.len()
        &&& (forall|i: int|
            0 <= i < text.len() ==> lr.glyph_run@[i] == self.spec_laid_glyph_at(text, i, size))
        &&& lr.line_height == self.spec_line_height(size)
        &&& lr.line_gap == self.spec_line_gap(size)
    }

    /// Lays out a text at a font size: resolves the glyph run, folds the
    /// kerning into each width, applies the `1000 / unitsPerEm` scale and
    /// then `size / 1000`, and pairs the run with the line metrics.
    /// Heights stay in raw font units on purpose.
    pub fn layout_run(&self, text: &str, font_size: u32) -> (r: Result<LayoutRun, LayoutFault>)
        requires
            self.wf(),
        ensures
            match r {
                Ok(lr) => self.spec_run_fault(text@) is None && self.spec_layout_run_matches(
                    text@,
                    font_size,
                    lr,
                ),
                Err(f) => Some(f) == self.spec_run_fault(text@),
            },
    {
        let glyph_run = match self.run(text) {
            Ok(v) => v,
            Err(f) => return Err(f),
        };
        let n = glyph_run.len();
        let mut laid: Vec<GlyphMetrics> = Vec::new();
        for i in 0..n
            invariant
                self.wf(),
                n == glyph_run@.len(),
                n == text@.len(),
                self.spec_run_fault(text@) is None,
                forall|j: int|
                    0 <= j < n ==> glyph_run@[j] == self.spec_glyph_at(text@, j),
                forall|j: int| 0 <= j < n ==> self.spec_char_fault(#[trigger] text@[j]) is None,
                laid@.len() == i,
                forall|j: int|
                    0 <= j < i ==> laid@[j] == self.spec_laid_glyph_at(text@, j, font_size),
        {
            let mut g = glyph_run[i];
            proof {
                self.lemma_glyph_at_bounds(text@, i as int);
            }
            g.apply_kerning();
            g.apply_scale(self.metrics.scale);
            proof {
                lemma_small_mul_bound(g.width.num as int, font_size as int);
            }
            g.width.num = g.width.num * (font_size as i128);
            g.width.den = g.width.den * 1000;
            laid.push(g);
        }
        let lh = self.line_height(font_size);
        let lg = self.line_gap(font_size);
        Ok(
            LayoutRun {
                text: text.to_owned(),
                font: self.name.clone(),
                font_size,
                glyph_run: laid,
                line_height: lh,
                line_gap: lg,
            },
        )
    }

    /// Shared construction core: builds the glyph maps and derived metrics
    /// from the source values.
    pub(crate) fn from_parts(
        name: String,
        raw_bytes: Vec<u8>,
        units_per_em: u16,
        ascender: i16,
        descender: i16,
        line_gap: i16,
        subtables: &Vec<CmapSubtable>,
        advances: &Vec<(u16, u16)>,
        bounding_boxes: &Vec<(u16, (i16, i16))>,
        kern: KernLookup,
    ) -> (f: Font)
        requires
            units_per_em > 0,
        ensures
            f.wf(),
            f.name@ == name@,
            f.raw_bytes@ == raw_bytes@,
            f.units_per_em == units_per_em,
            f.kern == kern,
            f.metrics.ascent == ascender as int,
            f.metrics.descent == descender as int,
            f.metrics.line_gap.num == line_gap * 1000,
            (f.char_map@, f.glyph_ids@, f.glyph_metrics@) == spec_glyph_tables(
                advances@,
                bounding_boxes@,
                descender,
                spec_unicode_pairs(subtables@),
            ),
    {
        let (char_map, glyph_ids, glyph_metrics) = calc_glyphs_data(
            subtables,
            advances,
            bounding_boxes,
            descender,
        );
        let den = units_per_em as u64;
        let metrics = FontMetrics {
            ascent: ascender as i64,
            descent: descender as i64,
            scale: Ratio { num: 1000, den },
            ascender_scaled: Ratio { num: (ascender as i128) * 1000, den },
            descender_scaled: Ratio { num: (descender as i128) * 1000, den },
            line_gap: Ratio { num: (line_gap as i128) * 1000, den },
        };
        proof {
            lemma_tables_wf(advances@, bounding_boxes@, descender, spec_unicode_pairs(subtables@));
        }
        Font {
            name,
            raw_bytes,
            kern,
            units_per_em,
            glyph_metrics,
            glyph_ids,
            char_map,
            metrics,
        }
    }

    /// Builds a `Font` from a glyph source and the raw bytes it was read
    /// from.  Fails with `MissingCmap` when the source has no character-map
    /// table at all, and with `FaceUnparseable` when the em square is zero
    /// (no usable scale); on success every map and derived metric is exactly
    /// what the source dictates.
    pub fn from_source(name: String, source: GlyphSource, raw_bytes: Vec<u8>) -> (r: Result<
        Font,
        FontFault,
    >)
        ensures
            match r {
                Ok(f) => {
                    &&& source.cmap is Some
                    &&& source.units_per_em > 0
                    &&& f.wf()
                    &&& f.name@ == name@
                    &&& f.raw_bytes@ == raw_bytes@
                    &&& f.units_per_em == source.units_per_em
                    &&& f.metrics.ascent == source.ascender as int
                    &&& f.metrics.descent == source.descender as int
                    &&& f.metrics.line_gap.num == source.line_gap * 1000
                    &&& f.metrics.scale.num == 1000 && f.metrics.scale.den
                        == source.units_per_em
                    &&& (f.char_map@, f.glyph_ids@, f.glyph_metrics@) == spec_glyph_tables(
                        source.advances@,
                        source.bounding_boxes@,
                        source.descender,
                        spec_unicode_pairs(source.cmap.unwrap()@),
                    )
                    &&& f.kern == (match source.kerning {
                        Some(p) => KernLookup::Pairs(p),
                        None => KernLookup::Missing,
                    })
                },
                Err(e) => {
                    ||| (e == FontFault::MissingCmap && source.cmap is None)
                    ||| (e == FontFault::FaceUnparseable && source.cmap is Some
                        && source.units_per_em == 0)
                },
            },
    {
        let GlyphSource {
            units_per_em,
            ascender,
            descender,
            line_gap,
            cmap,
            advances,
            bounding_boxes,
            kerning,
        } = source;
        match cmap {
            None => Err(FontFault::MissingCmap),
            Some(subtables) => {
                if units_per_em == 0 {
                    return Err(FontFault::FaceUnparseable);
                }
                let kern = match kerning {
                    Some(p) => KernLookup::Pairs(p),
                    None => KernLookup::Missing,
                };
                Ok(
                    Font::from_parts(
                        name,
                        raw_bytes,
                        units_per_em,
                        ascender,
                        descender,
                        line_gap,
                        &subtables,
                        &advances,
                        &bounding_boxes,
                        kern,
                    ),
                )
            },
        }
    }
}

/// Builds the three glyph maps in one pass over all Unicode cmap entries:
/// pairs with glyph id 0 or an invalid codepoint are skipped, and for each
/// map the first insertion for a key wins.
fn calc_glyphs_data(
    subtables: &Vec<CmapSubtable>,
    advances: &Vec<(u16, u16)>,
    bboxes: &Vec<(u16, (i16, i16))>,
    descender: i16,
) -> (r: (Vec<(u32, u16)>, Vec<(u16, char)>, Vec<(u16, GlyphMetrics)>))
    ensures
        (r.0@, r.1@, r.2@) == spec_glyph_tables(
            advances@,
            bboxes@,
            descender,
            spec_unicode_pairs(subtables@),
        ),
{
    let mut char_map: Vec<(u32, u16)> = Vec::new();
    let mut glyph_ids: Vec<(u16, char)> = Vec::new();
    let mut glyph_metrics: Vec<(u16, GlyphMetrics)> = Vec::new();
    let ghost mut done: Seq<(u32, u16)> = Seq::empty();
    let ns = subtables.len();
    for si in 0..ns
        invariant
            ns == subtables@.len(),
            done == spec_unicode_pairs(subtables@.take(si as int)),
            (char_map@, glyph_ids@, glyph_metrics@) == spec_glyph_tables(
                advances@,
                bboxes@,
                descender,
                done,
            ),
    {
        let st = &subtables[si];
        if st.unicode {
            let np = st.mappings.len();
            proof {
                assert(done + st.mappings@.take(0) =~= done);
            }
            for pi in 0..np
                invariant
                    np == st.mappings@.len(),
                    (char_map@, glyph_ids@, glyph_metrics@) == spec_glyph_tables(
                        advances@,
                        bboxes@,
                        descender,
                        done + st.mappings@.take(pi as int),
                    ),
            {
                let p = st.mappings[pi];
                proof {
                    assert(done + st.mappings@.take(pi as int + 1) =~= (done
                        + st.mappings@.take(pi as int)).push(st.mappings@[pi as int]));
                    lemma_tables_push(
                        advances@,
                        bboxes@,
                        descender,
                        done + st.mappings@.take(pi as int),
                        st.mappings@[pi as int],
                    );
                }
                if p.1 > 0 {
                    match char_from_codepoint(p.0) {
                        Some(c) => {
                            proof {
                                assert(c as u32 == p.0);
                                vstd::utf8::char_u32_cast(c, p.0);
                                assert(char_of(p.0) == c);
                            }
                            insert_absent_u32(&mut char_map, p.0, p.1);
                            insert_absent_u16(&mut glyph_ids, p.1, c);
                            match calc_glyph_metrics(advances, bboxes, descender, p.1, c) {
                                Some(m) => insert_absent_u16(&mut glyph_metrics, p.1, m),
                                None => {},
                            }
                        },
                        None => {},
                    }
                }
            }
            proof {
                assert(st.mappings@.take(np as int) =~= st.mappings@);
                done = done + st.mappings@;
                assert(subtables@.take(si as int + 1).drop_last() =~= subtables@.take(si as int));
                assert(subtables@.take(si as int + 1).last() == subtables@[si as int]);
            }
        } else {
            proof {
                assert(subtables@.take(si as int + 1).drop_last() =~= subtables@.take(si as int));
                assert(subtables@.take(si as int + 1).last() == subtables@[si as int]);
                assert(done + Seq::<(u32, u16)>::empty() =~= done);
            }
        }
    }
    proof {
        assert(subtables@.take(ns as int) =~= subtables@);
    }
    (char_map, glyph_ids, glyph_metrics)
}

/// A product of a bounded factor and a `u32`-to-double-`u32` sized factor
/// stays far inside `i128` range.
proof fn lemma_small_mul_bound(a: int, b: int)
    requires
        -100_000_000 <= a <= 100_000_000,
        0 <= b <= 8_589_934_590,
    ensures
        -900_000_000_000_000_000 <= a * b <= 900_000_000_000_000_000,
{
    assert(-900_000_000_000_000_000 <= a * b <= 900_000_000_000_000_000) by (nonlinear_arith)
        requires
            -100_000_000 <= a <= 100_000_000,
            0 <= b <= 8_589_934_590,
    ;
}

/// Law: line metrics are linear in the font size.  Doubling the size
/// doubles the line height and the line gap exactly (same denominator,
/// doubled numerator), and size 0 yields zero for both.
pub proof fn lemma_line_metrics_linear_in_size(f: Font, s: u32)
    requires
        f.wf(),
        2 * s <= u32::MAX,
    ensures
        f.spec_line_height((2 * s) as u32).num == 2 * f.spec_line_height(s).num,
        f.spec_line_height((2 * s) as u32).den == f.spec_line_height(s).den,
        f.spec_line_gap((2 * s) as u32).num == 2 * f.spec_line_gap(s).num,
        f.spec_line_gap((2 * s) as u32).den == f.spec_line_gap(s).den,
        f.spec_line_height(0).num == 0,
        f.spec_line_gap(0).num == 0,
{
    let a = f.spec_calc_line_height().num;
    let g = f.metrics.line_gap.num;
    let s2: int = 2 * s;
    assert((2 * s) as u32 == s2);
    lemma_small_mul_bound(a as int, s as int);
    lemma_small_mul_bound(a as int, s2);
    lemma_small_mul_bound(g as int, s as int);
    lemma_small_mul_bound(g as int, s2);
    assert(a * s2 == 2 * (a * s)) by (nonlinear_arith)
        requires
            s2 == 2 * s,
    ;
    assert(g * s2 == 2 * (g * s)) by (nonlinear_arith)
        requires
            s2 == 2 * s,
    ;
}

/// Every laid-out run is summable: all glyph widths share one positive
/// denominator and their numerators are small enough that `run_width` can
/// add them without overflow.
pub proof fn lemma_layout_run_summable(f: Font, text: Seq<char>, size: u32, lr: LayoutRun)
    requires
        f.wf(),
        f.spec_run_fault(text) is None,
        f.spec_layout_run_matches(text, size, lr),
    ensures
        lr.uniform_width_dens(),
        lr.bounded_width_nums(),
        lr.glyph_run@.len() > 0 ==> lr.glyph_run@[0].width.den > 0,
{
    f.lemma_run_fault_all_clear(text);
    assert forall|i: int| 0 <= i < lr.glyph_run@.len() implies (#[trigger] lr.glyph_run@[i]).width.den
        == lr.glyph_run@[0].width.den && -0x4000_0000_0000_0000 <= lr.glyph_run@[i].width.num
        <= 0x4000_0000_0000_0000 by {
        f.lemma_glyph_at_bounds(text, i);
        f.lemma_glyph_at_bounds(text, 0);
        let m = f.spec_glyph_at(text, i);
        lemma_small_mul_bound((m.width.num + m.kern_right) * 1000, size as int);
    }
}

/// Law: layout is reproducible.  Any two layout-run results that satisfy
/// `layout_run`'s contract for the same font, text and size agree on every
/// observable field — there is no hidden state to diverge on.
pub proof fn lemma_layout_run_deterministic(
    f: Font,
    text: Seq<char>,
    size: u32,
    a: LayoutRun,
    b: LayoutRun,
)
    requires
        f.spec_layout_run_matches(text, size, a),
        f.spec_layout_run_matches(text, size, b),
    ensures
        a.text@ == b.text@,
        a.font@ == b.font@,
        a.font_size == b.font_size,
        a.glyph_run@ == b.glyph_run@,
        a.line_height == b.line_height,
        a.line_gap == b.line_gap,
{
    assert(a.glyph_run@ =~= b.glyph_run@);
}

} // verus!
