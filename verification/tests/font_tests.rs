//! Tests against a synthetic in-memory glyph source: no font binary needed.

use fontpdf::font::{Font, FontFault, LayoutFault};
use fontpdf::source::{CmapSubtable, GlyphSource};

fn ratio_f64(r: fontpdf::ratio::Ratio) -> f64 {
    r.num as f64 / r.den as f64
}

/// A small font: 'A' -> glyph 4 (width 1185), 'B' -> glyph 17 (width 1114),
/// 'a' -> glyph 70 (width 561), em square 1000.
/// Heights: glyph 4 -> 1818, glyph 17 -> 1806, glyph 70 -> 848 (from the
/// bounding boxes and descender -293).
fn sample_source() -> GlyphSource {
    GlyphSource {
        units_per_em: 1000,
        ascender: 1069,
        descender: -293,
        line_gap: 0,
        cmap: Some(vec![CmapSubtable {
            unicode: true,
            mappings: vec![('A' as u32, 4), ('B' as u32, 17), ('a' as u32, 70)],
        }]),
        advances: vec![(4, 1185), (17, 1114), (70, 561)],
        bounding_boxes: vec![(4, (0, 1525)), (17, (0, 1513)), (70, (-10, 545))],
        kerning: None,
    }
}

fn sample_font() -> Font {
    Font::from_source("noto".to_string(), sample_source(), vec![0, 1, 0, 0]).unwrap()
}

/// A Calibri-like font: em square 2048, ascender 1536, descender -512,
/// line gap 452; 'A' -> glyph 4 (width 1185), 'B' -> glyph 17 (width 1114).
/// Heights: glyph 4 -> 1818, glyph 17 -> 1806 (bounding boxes plus the
/// descender).
fn calibri_source() -> GlyphSource {
    GlyphSource {
        units_per_em: 2048,
        ascender: 1536,
        descender: -512,
        line_gap: 452,
        cmap: Some(vec![CmapSubtable {
            unicode: true,
            mappings: vec![('A' as u32, 4), ('B' as u32, 17)],
        }]),
        advances: vec![(4, 1185), (17, 1114)],
        bounding_boxes: vec![(4, (0, 1306)), (17, (0, 1294))],
        kerning: None,
    }
}

fn calibri_font() -> Font {
    Font::from_source("Calibri".to_string(), calibri_source(), vec![0, 1, 0, 0]).unwrap()
}

fn cmp_f64(this: f64, that: f64) -> bool {
    (this - that).abs() < 0.1
}

#[test]
fn init_font() {
    let f = sample_font();
    assert_eq!(f.name, "noto");
    assert_eq!(f.units_per_em, 1000);
    assert_eq!(f.font_metrics().ascent, 1069);
    assert_eq!(f.font_metrics().descent, -293);
}

#[test]
fn get_glypth_id() {
    let f = sample_font();
    assert_eq!(f.glyph_id_for_char('a'), Some(70));
}

#[test]
fn get_glyph_metrics() {
    let f = sample_font();
    let m = f.glyph_metrics_for_char('a').unwrap();
    let height = 545 - (-10 as i32) - (-293 as i32);
    assert_eq!(m.id, 70);
    assert_eq!(m.height, height as i64);
    assert_eq!(m.width.num, 561);
    assert_eq!(m.width.den, 1);
    assert_eq!(m.character, 'a');
}

#[test]
fn get_glyph_run() {
    let f = calibri_font();
    let run = f.run("AB").unwrap();
    assert_eq!(run.len(), 2);
    assert_eq!(run[0].id, 4);
    assert_eq!(run[0].character, 'A');
    assert_eq!(run[0].width.num, 1185);
    assert_eq!(run[0].width.den, 1);
    assert_eq!(run[0].height, 1818);
    assert_eq!(run[0].kern_right, 0);
    assert_eq!(run[1].id, 17);
    assert_eq!(run[1].character, 'B');
    assert_eq!(run[1].width.num, 1114);
    assert_eq!(run[1].height, 1806);
    assert_eq!(run[1].kern_right, 0);
}

#[test]
fn scale_is_exactly_1000_over_upem() {
    for upem in [1u16, 3, 1000, 1024, 2048, 65535] {
        let mut src = sample_source();
        src.units_per_em = upem;
        let f = Font::from_source("s".to_string(), src, vec![]).unwrap();
        let m = f.font_metrics();
        assert_eq!(m.scale.num, 1000);
        assert_eq!(m.scale.den, upem as u64);
    }
}

#[test]
fn test_line_height() {
    let f = calibri_font();
    // (ascender + line_gap - descender) / units_per_em = 2500 / 2048
    assert!(cmp_f64(ratio_f64(f.calc_line_height()), 1.220703));
    assert!(cmp_f64(ratio_f64(f.line_height(16)), 19.53125));
    assert!(cmp_f64(ratio_f64(f.line_gap(16)), 3.53125));
    // these values are exact rationals
    assert_eq!(ratio_f64(f.line_height(16)), 19.53125);
    assert_eq!(ratio_f64(f.line_gap(16)), 3.53125);
}

#[test]
fn line_metrics_linear_in_size() {
    let f = sample_font();
    for s in [1u32, 7, 12, 16, 1000] {
        let h1 = f.line_height(s);
        let h2 = f.line_height(2 * s);
        assert_eq!(h2.num, 2 * h1.num);
        assert_eq!(h2.den, h1.den);
        let g1 = f.line_gap(s);
        let g2 = f.line_gap(2 * s);
        assert_eq!(g2.num, 2 * g1.num);
        assert_eq!(g2.den, g1.den);
    }
    assert_eq!(f.line_height(0).num, 0);
    assert_eq!(f.line_gap(0).num, 0);
}

#[test]
fn get_layout_run() {
    let f = calibri_font();
    let lr = f.layout_run("AB", 12).unwrap();
    assert_eq!(lr.text, "AB");
    assert_eq!(lr.font, "Calibri");
    assert_eq!(lr.font_size, 12);
    assert_eq!(lr.glyph_run.len(), 2);
    assert!(cmp_f64(ratio_f64(lr.glyph_run[0].width), 6.9433594));
    assert!(cmp_f64(ratio_f64(lr.glyph_run[1].width), 6.5273438));
    // heights stay in raw font units
    assert_eq!(lr.glyph_run[0].height, 1818);
    assert_eq!(lr.glyph_run[1].height, 1806);
    assert!(cmp_f64(ratio_f64(lr.line_height), 14.6484375));
    assert!(cmp_f64(ratio_f64(lr.line_gap), 2.6484375));
}

#[test]
fn layout_widths_in_unit_em_space() {
    // with scale exactly 1.0 (em square 1000) and size 1000, widths come
    // back as the font-unit advances
    let f = sample_font();
    let lr = f.layout_run("AB", 1000).unwrap();
    assert!((ratio_f64(lr.glyph_run[0].width) - 1185.0).abs() < 1e-9);
    assert!((ratio_f64(lr.glyph_run[1].width) - 1114.0).abs() < 1e-9);
}

#[test]
fn layout_run_is_reproducible() {
    let f = sample_font();
    let a = f.layout_run("ABa", 12).unwrap();
    let b = f.layout_run("ABa", 12).unwrap();
    assert_eq!(a, b);
}

#[test]
fn empty_run_keeps_line_metrics() {
    let f = sample_font();
    let lr = f.layout_run("", 16).unwrap();
    assert_eq!(lr.glyph_run.len(), 0);
    assert_eq!(lr.line_height, f.line_height(16));
    assert_eq!(lr.line_gap, f.line_gap(16));
}

#[test]
fn absent_char_is_not_mapped() {
    let f = sample_font();
    assert_eq!(f.glyph_id_for_char('Z'), None);
    assert!(f.glyph_metrics_for_char('Z').is_none());
    assert_eq!(f.layout_run("AZ", 12).unwrap_err(), LayoutFault::GlyphNotMapped);
}

#[test]
fn mapped_glyph_without_advance_is_metrics_missing() {
    let mut src = sample_source();
    // 'B' maps to glyph 17, but glyph 17 loses its advance width
    src.advances = vec![(4, 1185), (70, 561)];
    let f = Font::from_source("s".to_string(), src, vec![]).unwrap();
    assert_eq!(f.glyph_id_for_char('B'), Some(17));
    assert!(f.glyph_metrics_for_char('B').is_none());
    assert_eq!(f.layout_run("AB", 12).unwrap_err(), LayoutFault::MetricsMissing);
}

#[test]
fn missing_cmap_is_a_construction_fault() {
    let mut src = sample_source();
    src.cmap = None;
    match Font::from_source("s".to_string(), src, vec![]) {
        Err(e) => assert_eq!(e, FontFault::MissingCmap),
        Ok(_) => panic!("expected a construction fault"),
    }
}

#[test]
fn zero_em_square_is_a_construction_fault() {
    let mut src = sample_source();
    src.units_per_em = 0;
    match Font::from_source("s".to_string(), src, vec![]) {
        Err(e) => assert_eq!(e, FontFault::FaceUnparseable),
        Ok(_) => panic!("expected a construction fault"),
    }
}

#[test]
fn get_kern_table() {
    let mut src = sample_source();
    src.kerning = Some(vec![(4, 17, -50)]);
    let f = Font::from_source("s".to_string(), src, vec![]).unwrap();
    let run = f.run("AB").unwrap();
    assert_eq!(run[0].kern_right, 0);
    assert_eq!(run[1].kern_right, -50);
    // kerning folds into the width at layout time: (1114 - 50) at size 1000
    let lr = f.layout_run("AB", 1000).unwrap();
    assert!((ratio_f64(lr.glyph_run[1].width) - 1064.0).abs() < 1e-9);
    // the first glyph of a run never receives a kern contribution
    assert!((ratio_f64(lr.glyph_run[0].width) - 1185.0).abs() < 1e-9);
}

#[test]
fn glyph_zero_and_invalid_codepoints_are_skipped() {
    let mut src = sample_source();
    src.cmap = Some(vec![CmapSubtable {
        unicode: true,
        // glyph 0 is .notdef; 0xD800 is a surrogate, not a scalar
        mappings: vec![('A' as u32, 0), (0xD800, 5), ('B' as u32, 17)],
    }]);
    let f = Font::from_source("s".to_string(), src, vec![]).unwrap();
    assert_eq!(f.glyph_id_for_char('A'), None);
    assert_eq!(f.glyph_id_for_char('B'), Some(17));
}

#[test]
fn first_subtable_wins_and_non_unicode_ignored() {
    let mut src = sample_source();
    src.cmap = Some(vec![
        CmapSubtable {
            unicode: false,
            mappings: vec![('A' as u32, 99)],
        },
        CmapSubtable {
            unicode: true,
            mappings: vec![('A' as u32, 4)],
        },
        CmapSubtable {
            unicode: true,
            mappings: vec![('A' as u32, 7)],
        },
    ]);
    let f = Font::from_source("s".to_string(), src, vec![]).unwrap();
    assert_eq!(f.glyph_id_for_char('A'), Some(4));
}

#[test]
fn test_run_width() {
    let f = sample_font();
    let lr = f.layout_run("ABa", 12).unwrap();
    let w = lr.run_width();
    // (1185 + 1114 + 561) * 12 / 1000 = 34.32 exactly
    assert!((w.num as f64 / w.den as f64 - 34.32).abs() < 1e-9);
}

#[test]
fn missing_bounding_box_defaults_height_to_1000() {
    let mut src = sample_source();
    src.bounding_boxes = vec![(4, (0, 1525))];
    let f = Font::from_source("s".to_string(), src, vec![]).unwrap();
    assert_eq!(f.glyph_metrics_for_char('B').unwrap().height, 1000);
    assert_eq!(f.glyph_metrics_for_char('A').unwrap().height, 1818);
}

#[test]
fn astral_plane_characters_lay_out() {
    // a character beyond the basic multilingual plane still maps and lays out
    let mut src = sample_source();
    src.cmap = Some(vec![CmapSubtable {
        unicode: true,
        mappings: vec![(0x1F600, 4), ('B' as u32, 17)],
    }]);
    let f = Font::from_source("s".to_string(), src, vec![]).unwrap();
    let smiley = char::from_u32(0x1F600).unwrap();
    assert_eq!(f.glyph_id_for_char(smiley), Some(4));
    let text = format!("{}B", smiley);
    let lr = f.layout_run(&text, 1000).unwrap();
    assert_eq!(lr.glyph_run.len(), 2);
    assert_eq!(lr.glyph_run[0].id, 4);
    assert_eq!(lr.glyph_run[0].character, smiley);
    assert_eq!(lr.glyph_run[1].id, 17);
}

#[test]
fn fractional_scale_widths_stay_exact() {
    // em square 2048: the scaled width is the exact rational w * size / 2048
    let mut src = sample_source();
    src.units_per_em = 2048;
    let f = Font::from_source("s".to_string(), src, vec![]).unwrap();
    let lr = f.layout_run("A", 12).unwrap();
    let w = lr.glyph_run[0].width;
    assert_eq!(w.num as f64 / w.den as f64, 1185.0 * 12.0 / 2048.0);
}
