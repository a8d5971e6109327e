//! Trusted boundary to the font-file parser.
//!
//! A parsed font binary is an `owned_ttf_parser::OwnedFace`, opaque to
//! verification.  Each wrapper below makes exactly one query against the
//! face and hands the answer back as plain values; the rest of the crate
//! works on those values and is verified against them.

use vstd::prelude::*;
use owned_ttf_parser::AsFaceRef;
use crate::font::Font;
use crate::font::FontFault;
use crate::font::KernLookup;
use crate::source::CmapSubtable;

verus! {

/// A parsed font face, owned together with its backing bytes.
#[verifier::external_type_specification]
#[verifier::external_body]
pub struct ExOwnedFace(owned_ttf_parser::OwnedFace);

/// What the first kerning subtable of this face answers for a left/right
/// glyph pair.  The answer depends only on the face bytes and the pair, so
/// the same query always yields the same result.
pub uninterp spec fn face_kern_pair(face: owned_ttf_parser::OwnedFace, left: u16, right: u16) -> Option<i16>;

/// Whether these bytes parse as a font face (collection index 0); a pure
/// function of the bytes.
pub uninterp spec fn face_parses(bytes: Seq<u8>) -> bool;

/// The face these bytes parse to (meaningful only when they parse).
pub uninterp spec fn face_of_bytes(bytes: Seq<u8>) -> owned_ttf_parser::OwnedFace;

/// Whether the face carries a character-map table.
pub uninterp spec fn face_cmap_present(face: owned_ttf_parser::OwnedFace) -> bool;

/// The face's em square.
pub uninterp spec fn face_upem(face: owned_ttf_parser::OwnedFace) -> u16;

/// The face's horizontal ascender.
pub uninterp spec fn face_ascent(face: owned_ttf_parser::OwnedFace) -> i16;

/// The face's horizontal descender.
pub uninterp spec fn face_descent(face: owned_ttf_parser::OwnedFace) -> i16;

/// The face's horizontal line gap.
pub uninterp spec fn face_gap(face: owned_ttf_parser::OwnedFace) -> i16;

/// Relies on `owned_ttf_parser::OwnedFace::from_vec`: parses a font binary
/// (collection index 0); `None` when the bytes are not a parseable face.
/// Parsing is a pure function of the bytes.
#[verifier::external_body]
pub fn face_from_bytes(data: &Vec<u8>) -> (r: Option<owned_ttf_parser::OwnedFace>)
    ensures
        r is Some <==> face_parses(data@),
        r matches Some(f) ==> f == face_of_bytes(data@),
{
    owned_ttf_parser::OwnedFace::from_vec(data.clone(), 0).ok()
}

/// Relies on `ttf_parser::Face::units_per_em`: the `head` table value,
/// documented to lie in `16..=16384`.
#[verifier::external_body]
pub fn face_units_per_em(face: &owned_ttf_parser::OwnedFace) -> (r: u16)
    ensures
        r == face_upem(*face),
        16 <= r <= 16384,
{
    face.as_face_ref().units_per_em()
}

/// Relies on `ttf_parser::Face::ascender`: the horizontal ascender (the
/// `hhea` value, with the OS/2 typographic fallbacks the parser applies).
#[verifier::external_body]
pub fn face_ascender(face: &owned_ttf_parser::OwnedFace) -> (r: i16)
    ensures
        r == face_ascent(*face),
{
    face.as_face_ref().ascender()
}

/// Relies on `ttf_parser::Face::descender`: the horizontal descender (the
/// `hhea` value, with the OS/2 typographic fallbacks the parser applies).
#[verifier::external_body]
pub fn face_descender(face: &owned_ttf_parser::OwnedFace) -> (r: i16)
    ensures
        r == face_descent(*face),
{
    face.as_face_ref().descender()
}

/// Relies on `ttf_parser::Face::line_gap`: the horizontal line gap (with
/// the OS/2 typographic fallbacks the parser applies).
#[verifier::external_body]
pub fn face_line_gap(face: &owned_ttf_parser::OwnedFace) -> (r: i16)
    ensures
        r == face_gap(*face),
{
    face.as_face_ref().line_gap()
}

/// Relies on `ttf_parser::FaceTables::cmap` being `Some` exactly when the
/// face has a character-map table.
#[verifier::external_body]
pub fn face_has_cmap(face: &owned_ttf_parser::OwnedFace) -> (r: bool)
    ensures
        r == face_cmap_present(*face),
{
    face.as_face_ref().tables().cmap.is_some()
}

/// Relies on `ttf_parser::cmap::Subtables::len`: how many cmap subtables the
/// face carries (0 when it has no cmap table).
#[verifier::external_body]
pub fn face_cmap_subtable_count(face: &owned_ttf_parser::OwnedFace) -> (r: u16) {
    match face.as_face_ref().tables().cmap {
        Some(t) => t.subtables.len(),
        None => 0,
    }
}

/// Relies on `ttf_parser::cmap::Subtable::is_unicode` for the subtable at
/// `index` (`false` when there is no such subtable).
#[verifier::external_body]
pub fn face_subtable_is_unicode(face: &owned_ttf_parser::OwnedFace, index: u16) -> (r: bool) {
    match face.as_face_ref().tables().cmap.and_then(|t| t.subtables.get(index)) {
        Some(s) => s.is_unicode(),
        None => false,
    }
}

/// Relies on `ttf_parser::cmap::Subtable::codepoints`: all codepoints defined
/// in the subtable at `index`, in the order the table reports them.
#[verifier::external_body]
pub fn face_subtable_codepoints(face: &owned_ttf_parser::OwnedFace, index: u16) -> (r: Vec<u32>) {
    let mut cps: Vec<u32> = Vec::new();
    if let Some(s) = face.as_face_ref().tables().cmap.and_then(|t| t.subtables.get(index)) {
        s.codepoints(|cp| cps.push(cp));
    }
    cps
}

/// Relies on `ttf_parser::cmap::Subtable::glyph_index` for the subtable at
/// `index`: the glyph id mapped to the codepoint, never glyph 0.
#[verifier::external_body]
pub fn face_subtable_glyph_index(face: &owned_ttf_parser::OwnedFace, index: u16, cp: u32) -> (r: Option<u16>) {
    face.as_face_ref()
        .tables()
        .cmap
        .and_then(|t| t.subtables.get(index))
        .and_then(|s| s.glyph_index(cp))
        .map(|id| id.0)
}

/// Relies on `ttf_parser::Face::glyph_hor_advance`: the horizontal advance
/// of the glyph in font units, `None` when the font records none.
#[verifier::external_body]
pub fn face_glyph_hor_advance(face: &owned_ttf_parser::OwnedFace, gid: u16) -> (r: Option<u16>) {
    face.as_face_ref().glyph_hor_advance(owned_ttf_parser::GlyphId(gid))
}

/// Relies on `ttf_parser::Face::glyph_bounding_box`: the glyph's bounding
/// box, reduced to its vertical extent `(y_min, y_max)`.
#[verifier::external_body]
pub fn face_glyph_bounding_box(face: &owned_ttf_parser::OwnedFace, gid: u16) -> (r: Option<(i16, i16)>) {
    face.as_face_ref()
        .glyph_bounding_box(owned_ttf_parser::GlyphId(gid))
        .map(|b| (b.y_min, b.y_max))
}

/// Relies on `ttf_parser::kern::Subtable::glyphs_kerning` of the first
/// kerning subtable: the adjustment for the pair, `None` when the face has
/// no kerning table or the pair is not listed.
#[verifier::external_body]
pub fn face_kerning(face: &owned_ttf_parser::OwnedFace, left: u16, right: u16) -> (r: Option<i16>)
    ensures
        r == face_kern_pair(*face, left, right),
{
    face.as_face_ref()
        .tables()
        .kern
        .and_then(|k| k.subtables.into_iter().next())
        .and_then(|s| s.glyphs_kerning(owned_ttf_parser::GlyphId(left), owned_ttf_parser::GlyphId(right)))
}

impl Font {
    /// Builds a `Font` by parsing a font binary.  The Unicode cmap
    /// subtables and the per-glyph advances and bounding boxes are pulled
    /// out into plain values and fed to the verified construction; the
    /// parsed face is kept for kerning lookups and the raw bytes verbatim
    /// for embedding.  Fails with `FaceUnparseable` when the bytes are not
    /// a parseable face or report a zero em square, and with `MissingCmap`
    /// when the face has no character-map table.
    pub fn new_from_bytes(raw: Vec<u8>, name: String) -> (r: Result<Font, FontFault>)
        ensures
            (r matches Err(e) && e == FontFault::FaceUnparseable) <==> !face_parses(raw@),
            (r matches Err(e) && e == FontFault::MissingCmap) <==> (face_parses(raw@)
                && !face_cmap_present(face_of_bytes(raw@))),
            r is Ok <==> face_parses(raw@) && face_cmap_present(face_of_bytes(raw@)),
            r matches Ok(f) ==> {
                &&& f.wf()
                &&& f.name@ == name@
                &&& f.raw_bytes@ == raw@
                &&& f.units_per_em == face_upem(face_of_bytes(raw@))
                &&& f.metrics.ascent == face_ascent(face_of_bytes(raw@)) as int
                &&& f.metrics.descent == face_descent(face_of_bytes(raw@)) as int
                &&& f.metrics.line_gap.num == face_gap(face_of_bytes(raw@)) * 1000
                &&& f.kern == KernLookup::Parsed(face_of_bytes(raw@))
            },
    {
        let face = match face_from_bytes(&raw) {
            Some(f) => f,
            None => {
                return Err(FontFault::FaceUnparseable);
            },
        };
        if !face_has_cmap(&face) {
            return Err(FontFault::MissingCmap);
        }
        let units_per_em = face_units_per_em(&face);
        if units_per_em == 0 {
            return Err(FontFault::FaceUnparseable);
        }
        let ascender = face_ascender(&face);
        let descender = face_descender(&face);
        let line_gap = face_line_gap(&face);
        let nsub = face_cmap_subtable_count(&face);
        let mut subtables: Vec<CmapSubtable> = Vec::new();
        let mut advances: Vec<(u16, u16)> = Vec::new();
        let mut bounding_boxes: Vec<(u16, (i16, i16))> = Vec::new();
        let mut si: u16 = 0;
        while si < nsub
            invariant
                si <= nsub,
            decreases nsub - si,
        {
            let unicode = face_subtable_is_unicode(&face, si);
            let mut mappings: Vec<(u32, u16)> = Vec::new();
            if unicode {
                let cps = face_subtable_codepoints(&face, si);
                let ncp = cps.len();
                for ci in 0..ncp
                    invariant
                        ncp == cps@.len(),
                {
                    let cp = cps[ci];
                    match face_subtable_glyph_index(&face, si, cp) {
                        Some(gid) => {
                            if gid > 0 {
                                mappings.push((cp, gid));
                                match face_glyph_hor_advance(&face, gid) {
                                    Some(adv) => advances.push((gid, adv)),
                                    None => {},
                                }
                                match face_glyph_bounding_box(&face, gid) {
                                    Some(b) => bounding_boxes.push((gid, b)),
                                    None => {},
                                }
                            }
                        },
                        None => {},
                    }
                }
            }
            subtables.push(CmapSubtable { unicode, mappings });
            si = si + 1;
        }
        Ok(
            Font::from_parts(
                name,
                raw,
                units_per_em,
                ascender,
                descender,
                line_gap,
                &subtables,
                &advances,
                &bounding_boxes,
                KernLookup::Parsed(face),
            ),
        )
    }
}

} // verus!
