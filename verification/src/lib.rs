//! Font metrics, kerning-aware text layout, and PDF CIDFontType2 embedding.
//!
//! A `Font` is built either from the tables of a parsed font binary or from a
//! synthetic in-memory glyph source.  It exposes per-glyph metrics, scaled
//! layout runs, and the structures a PDF document needs to embed the font:
//! the compressed width array, the ToUnicode character map and the
//! font-descriptor dictionary.

pub mod ratio;
pub mod glyphs;
pub mod source;
pub mod layout_run;
pub mod ttf;
pub mod font;
pub mod widths;
pub mod cmap;
pub mod pdf;
