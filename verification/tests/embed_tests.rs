//! Tests for width compression, ToUnicode blocks, the CMap text, and the
//! assembled PDF font dictionary.

use fontpdf::cmap::{build_cmap_blocks, generate_cid_to_unicode_map};
use fontpdf::font::Font;
use fontpdf::source::{CmapSubtable, GlyphSource};
use fontpdf::widths::compress_width_pairs;

fn decompress(runs: &[(u32, Vec<i64>)]) -> Vec<(u32, i64)> {
    let mut out = Vec::new();
    for (low, ws) in runs {
        for (j, w) in ws.iter().enumerate() {
            out.push((low + j as u32, *w));
        }
    }
    out
}

#[test]
fn width_compression_round_trips() {
    let pairs: Vec<(u32, i64)> = vec![
        (0, 1000),
        (4, 1185),
        (5, 900),
        (6, 910),
        (17, 1114),
        (18, 500),
        (40, 333),
    ];
    let runs = compress_width_pairs(&pairs);
    assert_eq!(decompress(&runs), pairs);
    // maximal contiguous runs: gaps between runs, no unnecessary splits
    assert_eq!(
        runs,
        vec![
            (0, vec![1000]),
            (4, vec![1185, 900, 910]),
            (17, vec![1114, 500]),
            (40, vec![333]),
        ]
    );
    for w in runs.windows(2) {
        assert!(w[0].0 + (w[0].1.len() as u32) < w[1].0);
    }
}

#[test]
fn width_compression_single_contiguous_range() {
    let pairs: Vec<(u32, i64)> = vec![(0, 10), (1, 20), (2, 30)];
    let runs = compress_width_pairs(&pairs);
    assert_eq!(runs, vec![(0, vec![10, 20, 30])]);
}

#[test]
fn cmap_blocks_split_on_high_byte_and_cap() {
    // 150 consecutive ids with high byte 0..=0 then ids with high byte 1
    let mut pairs: Vec<(u32, u32)> = Vec::new();
    for gid in 0..150u32 {
        pairs.push((gid, 0x41 + gid));
    }
    pairs.push((0x0100, 0x2603));
    pairs.push((0x0101, 0x2604));
    let blocks = build_cmap_blocks(&pairs);
    assert_eq!(blocks.len(), 3);
    assert_eq!(blocks[0].len(), 100);
    assert_eq!(blocks[1].len(), 50);
    assert_eq!(blocks[2].len(), 2);
    for block in &blocks {
        assert!(block.len() <= 100);
        for e in block {
            assert_eq!(e.0 >> 8, block[0].0 >> 8);
        }
    }
    let flat: Vec<(u32, u32)> = blocks.concat();
    assert_eq!(flat, pairs);
}

#[test]
fn cmap_text_is_rendered_exactly() {
    let blocks = vec![vec![(0u32, 0u32), (4, 'A' as u32)], vec![(0x1234, 0x1F600)]];
    let text = generate_cid_to_unicode_map("F0".to_string(), blocks);
    let expected = "/CIDInit /ProcSet findresource begin\n12 dict begin\nbegincmap\n/CIDSystemInfo <<\n/Registry (Adobe)\n/Ordering (UCS)\n/Supplement 0\n>> def\n/CMapName /F0 def\n/CMapType 2 def\n1 begincodespacerange\n<0000> <ffff>\nendcodespacerange\n2 beginbfchar\r\n<0000> <0000>\n<0004> <0041>\nendbfchar\r\n1 beginbfchar\r\n<1234> <1f600>\nendbfchar\r\nendcmap\nCMapName currentdict /CMap defineresource pop\nend\nend";
    assert_eq!(text, expected);
}

fn embed_source() -> GlyphSource {
    GlyphSource {
        units_per_em: 1000,
        ascender: 1069,
        descender: -293,
        line_gap: 0,
        cmap: Some(vec![CmapSubtable {
            unicode: true,
            mappings: vec![('A' as u32, 4), ('B' as u32, 17)],
        }]),
        advances: vec![(4, 1185), (17, 1114)],
        bounding_boxes: vec![(4, (0, 1525)), (17, (0, 1513))],
        kerning: None,
    }
}

#[test]
fn test_embedding() {
    let f = Font::from_source(
        "Calibri".to_string(),
        embed_source(),
        vec![0, 1, 2, 3, 4, 5, 6, 7],
    )
    .unwrap();
    let mut doc = lopdf::Document::with_version("1.7");
    let dict = f.embed_lopdf(&mut doc, 0);
    assert_eq!(dict.get(b"Type").unwrap().as_name().unwrap(), b"Font");
    assert_eq!(dict.get(b"Subtype").unwrap().as_name().unwrap(), b"Type0");
    assert_eq!(dict.get(b"BaseFont").unwrap().as_name().unwrap(), b"F0");
    assert_eq!(dict.get(b"Encoding").unwrap().as_name().unwrap(), b"Identity-H");

    // the descendant font carries the compressed width array
    let descendants = dict.get(b"DescendantFonts").unwrap().as_array().unwrap();
    let desc = descendants[0].as_dict().unwrap();
    assert_eq!(desc.get(b"Subtype").unwrap().as_name().unwrap(), b"CIDFontType2");
    assert_eq!(desc.get(b"DW").unwrap().as_i64().unwrap(), 1000);
    let w = desc.get(b"W").unwrap().as_array().unwrap();
    // [0 [1000] 4 [1185] 17 [1114]]: the sentinel plus the two glyphs,
    // scaled by 1000/1000
    assert_eq!(w.len(), 6);
    assert_eq!(w[0].as_i64().unwrap(), 0);
    assert_eq!(w[1].as_array().unwrap()[0].as_i64().unwrap(), 1000);
    assert_eq!(w[2].as_i64().unwrap(), 4);
    assert_eq!(w[3].as_array().unwrap()[0].as_i64().unwrap(), 1185);
    assert_eq!(w[4].as_i64().unwrap(), 17);
    assert_eq!(w[5].as_array().unwrap()[0].as_i64().unwrap(), 1114);

    // the font descriptor was registered with the document
    let desc_ref = desc.get(b"FontDescriptor").unwrap().as_reference().unwrap();
    let descriptor = doc.get_object(desc_ref).unwrap().as_dict().unwrap();
    assert_eq!(descriptor.get(b"Ascent").unwrap().as_i64().unwrap(), 1069);
    assert_eq!(descriptor.get(b"Descent").unwrap().as_i64().unwrap(), -293);
    assert_eq!(descriptor.get(b"CapHeight").unwrap().as_i64().unwrap(), 1069);
    assert_eq!(descriptor.get(b"Flags").unwrap().as_i64().unwrap(), 32);
    assert_eq!(descriptor.get(b"StemV").unwrap().as_i64().unwrap(), 80);

    // the font file stream holds the raw bytes verbatim, uncompressed
    let ff_ref = descriptor.get(b"FontFile2").unwrap().as_reference().unwrap();
    let ff = doc.get_object(ff_ref).unwrap().as_stream().unwrap();
    assert_eq!(ff.content, vec![0, 1, 2, 3, 4, 5, 6, 7]);
    assert_eq!(ff.dict.get(b"Length1").unwrap().as_i64().unwrap(), 8);

    // FontBBox = [0, maxHeight, totalWidth, maxHeight]
    let bbox = descriptor.get(b"FontBBox").unwrap().as_array().unwrap();
    assert_eq!(bbox[0].as_i64().unwrap(), 0);
    assert_eq!(bbox[1].as_i64().unwrap(), 1818);
    assert_eq!(bbox[2].as_i64().unwrap(), 1185 + 1114);
    assert_eq!(bbox[3].as_i64().unwrap(), 1818);

    // the ToUnicode stream holds the rendered CMap text
    let tu_ref = dict.get(b"ToUnicode").unwrap().as_reference().unwrap();
    let tu = doc.get_object(tu_ref).unwrap().as_stream().unwrap();
    let text = String::from_utf8(tu.content.clone()).unwrap();
    assert!(text.contains("3 beginbfchar\r\n"));
    assert!(text.contains("<0000> <0000>\n"));
    assert!(text.contains("<0004> <0041>\n"));
    assert!(text.contains("<0011> <0042>\n"));
    assert!(text.contains("/CMapName /F0 def"));
}

#[test]
fn embedding_scales_widths_by_1000_over_upem() {
    let mut src = embed_source();
    src.units_per_em = 2048;
    let f = Font::from_source("s".to_string(), src, vec![]).unwrap();
    let mut doc = lopdf::Document::with_version("1.7");
    let dict = f.embed_lopdf(&mut doc, 3);
    assert_eq!(dict.get(b"BaseFont").unwrap().as_name().unwrap(), b"F3");
    let descendants = dict.get(b"DescendantFonts").unwrap().as_array().unwrap();
    let desc = descendants[0].as_dict().unwrap();
    let w = desc.get(b"W").unwrap().as_array().unwrap();
    // widths are floor(w * 1000 / 2048)
    assert_eq!(w[1].as_array().unwrap()[0].as_i64().unwrap(), 1000 * 1000 / 2048);
    assert_eq!(w[3].as_array().unwrap()[0].as_i64().unwrap(), 1185 * 1000 / 2048);
    assert_eq!(w[5].as_array().unwrap()[0].as_i64().unwrap(), 1114 * 1000 / 2048);
}
