//! The ToUnicode character map: block bucketing and text generation.
//!
//! Embedding buckets (glyph id, codepoint) pairs into `beginbfchar` blocks:
//! a new block starts whenever the glyph id's high byte changes or the
//! current block already holds 100 entries.  The blocks are rendered into
//! the CMap text a PDF reader uses to map glyph ids back to Unicode, inside
//! a fixed prologue/epilogue parameterized by the font resource name.

use vstd::prelude::*;
use vstd::string::StringExecFns;
use vstd::utf8::encode_utf8;
use vstd::utf8::decode_utf8;
use vstd::utf8::valid_utf8;
use vstd::utf8::encode_utf8_valid_utf8;
use vstd::utf8::encode_utf8_decode_utf8;

verus! {

/// The bucketer state after a pair stream: finished blocks, the open
/// block, and the high-byte tag the open block collects.
pub open spec fn spec_cmap_block_state(pairs: Seq<(u32, u32)>) -> (
    Seq<Seq<(u32, u32)>>,
    Seq<(u32, u32)>,
    u16,
)
    decreases pairs.len(),
{
    if pairs.len() == 0 {
        (Seq::empty(), Seq::empty(), 0u16)
    } else {
        let (blocks, cur, tag) = spec_cmap_block_state(pairs.drop_last());
        let p = pairs.last();
        let t = (p.0 >> 8) as u16;
        if t != tag || cur.len() >= 100 {
            (blocks.push(cur), seq![p], t)
        } else {
            (blocks, cur.push(p), tag)
        }
    }
}

/// The ToUnicode blocks for a pair stream: finished blocks plus the open
/// one (an empty stream yields one empty block).
pub open spec fn spec_cmap_blocks(pairs: Seq<(u32, u32)>) -> Seq<Seq<(u32, u32)>> {
    let (blocks, cur, tag) = spec_cmap_block_state(pairs);
    blocks.push(cur)
}

/// All pairs of all blocks, in order.
pub open spec fn spec_concat_blocks(blocks: Seq<Seq<(u32, u32)>>) -> Seq<(u32, u32)>
    decreases blocks.len(),
{
    if blocks.len() == 0 {
        Seq::empty()
    } else {
        spec_concat_blocks(blocks.drop_last()) + blocks.last()
    }
}

/// A block is well-formed when it has at most 100 entries and all its
/// entries share the glyph id's high byte.
pub open spec fn spec_block_wf(block: Seq<(u32, u32)>) -> bool {
    &&& block.len() <= 100
    &&& forall|j: int, k: int|
        0 <= j < block.len() && 0 <= k < block.len() ==> ((#[trigger] block[j]).0 >> 8) as u16 == (
        (#[trigger] block[k]).0 >> 8) as u16
}

proof fn lemma_cmap_block_state(pairs: Seq<(u32, u32)>)
    ensures
        ({
            let (blocks, cur, tag) = spec_cmap_block_state(pairs);
            &&& cur.len() <= 100
            &&& (forall|j: int| 0 <= j < cur.len() ==> ((#[trigger] cur[j]).0 >> 8) as u16 == tag)
            &&& (forall|b: int| 0 <= b < blocks.len() ==> spec_block_wf(#[trigger] blocks[b]))
            &&& spec_concat_blocks(blocks) + cur == pairs
        }),
    decreases pairs.len(),
{
    if pairs.len() == 0 {
        let (blocks, cur, tag) = spec_cmap_block_state(pairs);
        assert(spec_concat_blocks(blocks) + cur =~= pairs);
    } else {
        let prefix = pairs.drop_last();
        lemma_cmap_block_state(prefix);
        let (blocks0, cur0, tag0) = spec_cmap_block_state(prefix);
        let p = pairs.last();
        let t = (p.0 >> 8) as u16;
        let (blocks, cur, tag) = spec_cmap_block_state(pairs);
        if t != tag0 || cur0.len() >= 100 {
            assert(blocks == blocks0.push(cur0) && cur == seq![p] && tag == t);
            assert(forall|b: int| 0 <= b < blocks.len() ==> spec_block_wf(#[trigger] blocks[b]))
                by {
                assert(spec_block_wf(cur0));
                assert(forall|b: int| 0 <= b < blocks0.len() ==> blocks[b] == blocks0[b]);
                assert(blocks[blocks.len() - 1] == cur0);
            }
            assert(spec_concat_blocks(blocks) =~= spec_concat_blocks(blocks0) + cur0) by {
                assert(blocks.drop_last() =~= blocks0);
                assert(blocks.last() == cur0);
            }
            assert(spec_concat_blocks(blocks) + cur =~= (spec_concat_blocks(blocks0) + cur0).push(
                p,
            ));
            assert((spec_concat_blocks(blocks0) + cur0).push(p) =~= pairs);
        } else {
            assert(blocks == blocks0 && cur == cur0.push(p) && tag == tag0);
            assert(spec_concat_blocks(blocks) + cur =~= (spec_concat_blocks(blocks0) + cur0).push(
                p,
            ));
            assert((spec_concat_blocks(blocks0) + cur0).push(p) =~= pairs);
        }
    }
}

/// Law: the ToUnicode block invariant.  However the pairs are given, every
/// generated block holds at most 100 entries, all entries of a block share
/// the high byte of their glyph id, and the blocks together list exactly
/// the given pairs in order.
pub proof fn lemma_cmap_block_invariant(pairs: Seq<(u32, u32)>)
    ensures
        forall|b: int|
            0 <= b < spec_cmap_blocks(pairs).len() ==> spec_block_wf(
                #[trigger] spec_cmap_blocks(pairs)[b],
            ),
        spec_concat_blocks(spec_cmap_blocks(pairs)) == pairs,
{
    lemma_cmap_block_state(pairs);
    let (blocks, cur, tag) = spec_cmap_block_state(pairs);
    let full = spec_cmap_blocks(pairs);
    assert(full.drop_last() =~= blocks);
    assert(full.last() == cur);
    assert(spec_block_wf(cur));
    assert(forall|b: int| 0 <= b < blocks.len() ==> full[b] == blocks[b]);
    assert(spec_concat_blocks(full) =~= spec_concat_blocks(blocks) + cur);
    assert(spec_concat_blocks(full) =~= pairs);
}

/// Buckets (glyph id, codepoint) pairs into ToUnicode blocks.
pub fn build_cmap_blocks(pairs: &Vec<(u32, u32)>) -> (r: Vec<Vec<(u32, u32)>>)
    ensures
        r@.len() == spec_cmap_blocks(pairs@).len(),
        forall|b: int|
            0 <= b < r@.len() ==> (#[trigger] r@[b])@ == spec_cmap_blocks(pairs@)[b],
{
    let mut blocks: Vec<Vec<(u32, u32)>> = Vec::new();
    let mut cur: Vec<(u32, u32)> = Vec::new();
    let mut tag: u16 = 0;
    let n = pairs.len();
    for i in 0..n
        invariant
            n == pairs@.len(),
            ({
                let (sblocks, scur, stag) = spec_cmap_block_state(pairs@.take(i as int));
                &&& blocks@.len() == sblocks.len()
                &&& (forall|b: int|
                    0 <= b < blocks@.len() ==> (#[trigger] blocks@[b])@ == sblocks[b])
                &&& cur@ == scur
                &&& tag == stag
            }),
    {
        proof {
            assert(pairs@.take(i + 1).drop_last() =~= pairs@.take(i as int));
            assert(pairs@.take(i + 1).last() == pairs@[i as int]);
        }
        let p = pairs[i];
        let t = (p.0 >> 8) as u16;
        if t != tag || cur.len() >= 100 {
            blocks.push(cur);
            cur = Vec::new();
            cur.push(p);
            tag = t;
        } else {
            cur.push(p);
        }
    }
    proof {
        assert(pairs@.take(n as int) =~= pairs@);
    }
    blocks.push(cur);
    proof {
        let (sblocks, scur, stag) = spec_cmap_block_state(pairs@);
        assert forall|b: int| 0 <= b < blocks@.len() implies (#[trigger] blocks@[b])@
            == spec_cmap_blocks(pairs@)[b] by {
            if b < blocks@.len() - 1 {
                assert(spec_cmap_blocks(pairs@)[b] == sblocks[b]);
            } else {
                assert(spec_cmap_blocks(pairs@)[b] == scur);
            }
        }
    }
    blocks
}

/// The character for one decimal digit.
pub open spec fn spec_digit_char(d: nat) -> char {
    ((48 + d) as u8) as char
}

/// The character for one lowercase hexadecimal digit.
pub open spec fn spec_hex_digit_char(d: nat) -> char {
    if d < 10 {
        ((48 + d) as u8) as char
    } else {
        ((87 + d) as u8) as char
    }
}

/// The decimal digits of a number, most significant first.
pub open spec fn spec_dec_chars(n: nat) -> Seq<char>
    decreases n,
{
    if n < 10 {
        seq![spec_digit_char(n)]
    } else {
        spec_dec_chars(n / 10) + seq![spec_digit_char(n % 10)]
    }
}

/// The lowercase hexadecimal digits of a number, most significant first.
pub open spec fn spec_hex_chars(v: nat) -> Seq<char>
    decreases v,
{
    if v < 16 {
        seq![spec_hex_digit_char(v)]
    } else {
        spec_hex_chars(v / 16) + seq![spec_hex_digit_char(v % 16)]
    }
}

/// Hexadecimal, zero-padded on the left to at least four digits.
pub open spec fn spec_hex4_chars(v: nat) -> Seq<char> {
    if v < 0x10 {
        seq![spec_digit_char(0), spec_digit_char(0), spec_digit_char(0)] + spec_hex_chars(v)
    } else if v < 0x100 {
        seq![spec_digit_char(0), spec_digit_char(0)] + spec_hex_chars(v)
    } else if v < 0x1000 {
        seq![spec_digit_char(0)] + spec_hex_chars(v)
    } else {
        spec_hex_chars(v)
    }
}

/// Encoding a single ASCII character is that character's byte.
proof fn lemma_ascii_char_bytes(b: u8)
    requires
        b < 0x80,
    ensures
        encode_utf8(seq![b as char]) == seq![b],
        (b as char) as u32 == b,
{
    let c = b as char;
    let v = c as u32;
    assert(v == b);
    assert(v & 0x7F == v) by (bit_vector)
        requires
            v < 0x80,
    ;
    assert(seq![c].drop_first() =~= Seq::<char>::empty());
    assert(vstd::utf8::has_width_1_encoding(v));
    assert(vstd::utf8::leading_byte_width_1(v) == b);
    assert(vstd::utf8::encode_scalar(v) =~= seq![b]);
    assert(encode_utf8(Seq::<char>::empty()) =~= Seq::<u8>::empty());
    assert(encode_utf8(seq![c]) == vstd::utf8::encode_scalar(v) + encode_utf8(
        seq![c].drop_first(),
    ));
    assert(encode_utf8(seq![c]) =~= seq![b]);
}

/// `encode_utf8` distributes over concatenation.
pub(crate) proof fn lemma_encode_concat(a: Seq<char>, b: Seq<char>)
    ensures
        encode_utf8(a + b) == encode_utf8(a) + encode_utf8(b),
    decreases a.len(),
{
    if a.len() == 0 {
        assert(a + b =~= b);
        assert(encode_utf8(a) + encode_utf8(b) =~= encode_utf8(b));
    } else {
        assert((a + b).drop_first() =~= a.drop_first() + b);
        lemma_encode_concat(a.drop_first(), b);
        assert((a + b)[0] == a[0]);
        assert(encode_utf8(a + b) =~= encode_utf8(a) + encode_utf8(b));
    }
}

/// Appends the UTF-8 bytes of a string slice.
pub(crate) fn push_str_bytes(out: &mut Vec<u8>, s: &str)
    ensures
        final(out)@ == old(out)@ + encode_utf8(s@),
{
    let bs = s.as_bytes();
    let n = bs.len();
    for i in 0..n
        invariant
            n == bs@.len(),
            bs@ == encode_utf8(s@),
            out@ == old(out)@ + bs@.take(i as int),
    {
        let b = bs[i];
        out.push(b);
        proof {
            assert(bs@.take(i + 1) =~= bs@.take(i as int).push(bs@[i as int]));
            assert(old(out)@ + bs@.take(i + 1) =~= (old(out)@ + bs@.take(i as int)).push(
                bs@[i as int],
            ));
        }
    }
    proof {
        assert(bs@.take(n as int) =~= bs@);
    }
}

/// Appends the decimal digits of `n`.
pub(crate) fn push_dec(out: &mut Vec<u8>, n: u64)
    ensures
        final(out)@ == old(out)@ + encode_utf8(spec_dec_chars(n as nat)),
    decreases n,
{
    if n >= 10 {
        push_dec(out, n / 10);
    }
    let d: u8 = 48 + (n % 10) as u8;
    out.push(d);
    proof {
        lemma_ascii_char_bytes(d);
        assert(spec_digit_char((n % 10) as nat) == d as char);
        if n >= 10 {
            lemma_encode_concat(spec_dec_chars((n / 10) as nat), seq![spec_digit_char((n % 10) as nat)]);
            assert(spec_dec_chars(n as nat) == spec_dec_chars((n / 10) as nat) + seq![
                spec_digit_char((n % 10) as nat),
            ]);
            assert(out@ =~= old(out)@ + encode_utf8(spec_dec_chars(n as nat)));
        } else {
            assert(spec_digit_char(n as nat) == d as char);
            assert(out@ =~= old(out)@ + encode_utf8(spec_dec_chars(n as nat)));
        }
    }
}

/// Appends the lowercase hexadecimal digits of `v`.
fn push_hex(out: &mut Vec<u8>, v: u32)
    ensures
        final(out)@ == old(out)@ + encode_utf8(spec_hex_chars(v as nat)),
    decreases v,
{
    if v >= 16 {
        push_hex(out, v / 16);
    }
    let m: u8 = (v % 16) as u8;
    let d: u8 = if m < 10 {
        48 + m
    } else {
        87 + m
    };
    out.push(d);
    proof {
        lemma_ascii_char_bytes(d);
        assert(spec_hex_digit_char((v % 16) as nat) == d as char);
        if v >= 16 {
            lemma_encode_concat(spec_hex_chars((v / 16) as nat), seq![spec_hex_digit_char((v % 16) as nat)]);
            assert(out@ =~= old(out)@ + encode_utf8(spec_hex_chars(v as nat)));
        } else {
            assert(out@ =~= old(out)@ + encode_utf8(spec_hex_chars(v as nat)));
        }
    }
}

/// Appends `v` in lowercase hexadecimal, zero-padded to at least 4 digits.
fn push_hex4(out: &mut Vec<u8>, v: u32)
    ensures
        final(out)@ == old(out)@ + encode_utf8(spec_hex4_chars(v as nat)),
{
    let ghost start = out@;
    let mut zeros: usize = 0;
    if v < 0x10 {
        zeros = 3;
    } else if v < 0x100 {
        zeros = 2;
    } else if v < 0x1000 {
        zeros = 1;
    }
    let mut z: usize = 0;
    while z < zeros
        invariant
            z <= zeros,
            zeros <= 3,
            out@ == start + encode_utf8(Seq::new(z as nat, |i: int| spec_digit_char(0))),
        decreases zeros - z,
    {
        out.push(48);
        proof {
            lemma_ascii_char_bytes(48);
            let zs = Seq::new(z as nat, |i: int| spec_digit_char(0));
            let zs1 = Seq::new((z + 1) as nat, |i: int| spec_digit_char(0));
            assert(zs1 =~= zs + seq![spec_digit_char(0)]);
            lemma_encode_concat(zs, seq![spec_digit_char(0)]);
            assert(out@ =~= start + encode_utf8(zs1));
        }
        z = z + 1;
    }
    push_hex(out, v);
    proof {
        let zs = Seq::new(zeros as nat, |i: int| spec_digit_char(0));
        lemma_encode_concat(zs, spec_hex_chars(v as nat));
        assert(zs + spec_hex_chars(v as nat) =~= spec_hex4_chars(v as nat)) by {
            if v < 0x10 {
                assert(zs =~= seq![spec_digit_char(0), spec_digit_char(0), spec_digit_char(0)]);
            } else if v < 0x100 {
                assert(zs =~= seq![spec_digit_char(0), spec_digit_char(0)]);
            } else if v < 0x1000 {
                assert(zs =~= seq![spec_digit_char(0)]);
            } else {
                assert(zs =~= Seq::<char>::empty());
                assert(zs + spec_hex_chars(v as nat) =~= spec_hex_chars(v as nat));
            }
        }
        assert(out@ =~= old(out)@ + encode_utf8(spec_hex4_chars(v as nat)));
    }
}

/// Relies on `String::from_utf8` of std: turns UTF-8 encoded bytes back
/// into the character sequence they encode.
#[verifier::external_body]
pub(crate) fn string_from_utf8_bytes(bytes: Vec<u8>) -> (r: String)
    requires
        valid_utf8(bytes@),
    ensures
        r@ == decode_utf8(bytes@),
{
    String::from_utf8(bytes).unwrap_or_default()
}

/// The text of one bfchar entry: `<gid> <codepoint>`, each in 4-digit
/// lowercase hexadecimal.
pub open spec fn spec_entry_text(p: (u32, u32)) -> Seq<char> {
    "<"@ + spec_hex4_chars(p.0 as nat) + "> <"@ + spec_hex4_chars(p.1 as nat) + ">\n"@
}

/// The entry lines of a block, in order.
pub open spec fn spec_entries_text(block: Seq<(u32, u32)>) -> Seq<char>
    decreases block.len(),
{
    if block.len() == 0 {
        Seq::empty()
    } else {
        spec_entries_text(block.drop_last()) + spec_entry_text(block.last())
    }
}

/// The text of one ToUnicode block: the entry count, the entries, and the
/// `beginbfchar`/`endbfchar` brackets.
pub open spec fn spec_block_text(block: Seq<(u32, u32)>) -> Seq<char> {
    spec_dec_chars(block.len() as nat) + " beginbfchar\r\n"@ + spec_entries_text(block)
        + "endbfchar\r\n"@
}

/// The texts of all blocks, in order.
pub open spec fn spec_blocks_text(blocks: Seq<Seq<(u32, u32)>>) -> Seq<char>
    decreases blocks.len(),
{
    if blocks.len() == 0 {
        Seq::empty()
    } else {
        spec_blocks_text(blocks.drop_last()) + spec_block_text(blocks.last())
    }
}

/// The fixed CMap prologue up to the resource name.
pub open spec fn spec_cmap_prologue_head() -> Seq<char> {
    "/CIDInit /ProcSet findresource begin\n12 dict begin\nbegincmap\n/CIDSystemInfo <<\n/Registry (Adobe)\n/Ordering (UCS)\n/Supplement 0\n>> def\n/CMapName /"@
}

/// The fixed CMap prologue after the resource name.
pub open spec fn spec_cmap_prologue_tail() -> Seq<char> {
    " def\n/CMapType 2 def\n1 begincodespacerange\n<0000> <ffff>\nendcodespacerange\n"@
}

/// The fixed CMap epilogue.
pub open spec fn spec_cmap_epilogue() -> Seq<char> {
    "endcmap\nCMapName currentdict /CMap defineresource pop\nend\nend"@
}

/// The whole ToUnicode CMap text for a font resource name and its blocks.
pub open spec fn spec_cmap_text(name: Seq<char>, blocks: Seq<Seq<(u32, u32)>>) -> Seq<char> {
    spec_cmap_prologue_head() + name + spec_cmap_prologue_tail() + spec_blocks_text(blocks)
        + spec_cmap_epilogue()
}

/// Renders the ToUnicode CMap text: every block as `N beginbfchar`, one
/// `<gid> <codepoint>` line per pair in 4-digit lowercase hexadecimal, and
/// `endbfchar`, inside the fixed prologue/epilogue parameterized by the
/// font resource name.
pub fn generate_cid_to_unicode_map(face_name: String, all_cmap_blocks: Vec<Vec<(u32, u32)>>) -> (r:
    String)
    ensures
        r@ == spec_cmap_text(
            face_name@,
            all_cmap_blocks@.map_values(|b: Vec<(u32, u32)>| b@),
        ),
{
    let ghost sblocks = all_cmap_blocks@.map_values(|b: Vec<(u32, u32)>| b@);
    let mut out: Vec<u8> = Vec::new();
    let ghost head = spec_cmap_prologue_head() + face_name@ + spec_cmap_prologue_tail();
    push_str_bytes(
        &mut out,
        "/CIDInit /ProcSet findresource begin\n12 dict begin\nbegincmap\n/CIDSystemInfo <<\n/Registry (Adobe)\n/Ordering (UCS)\n/Supplement 0\n>> def\n/CMapName /",
    );
    push_str_bytes(&mut out, face_name.as_str());
    push_str_bytes(
        &mut out,
        " def\n/CMapType 2 def\n1 begincodespacerange\n<0000> <ffff>\nendcodespacerange\n",
    );
    proof {
        lemma_encode_concat(spec_cmap_prologue_head(), face_name@);
        lemma_encode_concat(spec_cmap_prologue_head() + face_name@, spec_cmap_prologue_tail());
        assert(out@ =~= encode_utf8(head));
    }
    let nb = all_cmap_blocks.len();
    for bi in 0..nb
        invariant
            nb == all_cmap_blocks@.len(),
            sblocks == all_cmap_blocks@.map_values(|b: Vec<(u32, u32)>| b@),
            sblocks.len() == nb,
            forall|b: int| 0 <= b < nb ==> sblocks[b] == (#[trigger] all_cmap_blocks@[b])@,
            head == spec_cmap_prologue_head() + face_name@ + spec_cmap_prologue_tail(),
            out@ == encode_utf8(head + spec_blocks_text(sblocks.take(bi as int))),
    {
        let block = &all_cmap_blocks[bi];
        let ghost chars0 = head + spec_blocks_text(sblocks.take(bi as int));
        push_dec(&mut out, block.len() as u64);
        push_str_bytes(&mut out, " beginbfchar\r\n");
        proof {
            lemma_encode_concat(chars0, spec_dec_chars(block@.len() as nat));
            lemma_encode_concat(
                chars0 + spec_dec_chars(block@.len() as nat),
                " beginbfchar\r\n"@,
            );
        }
        let ghost chars1 = chars0 + spec_dec_chars(block@.len() as nat) + " beginbfchar\r\n"@;
        let ne = block.len();
        for ei in 0..ne
            invariant
                ne == block@.len(),
                out@ == encode_utf8(chars1 + spec_entries_text(block@.take(ei as int))),
                chars1 == chars0 + spec_dec_chars(block@.len() as nat) + " beginbfchar\r\n"@,
        {
            let ghost chars2 = chars1 + spec_entries_text(block@.take(ei as int));
            let p = block[ei];
            push_str_bytes(&mut out, "<");
            push_hex4(&mut out, p.0);
            push_str_bytes(&mut out, "> <");
            push_hex4(&mut out, p.1);
            push_str_bytes(&mut out, ">\n");
            proof {
                lemma_encode_concat(chars2, "<"@);
                lemma_encode_concat(chars2 + "<"@, spec_hex4_chars(p.0 as nat));
                lemma_encode_concat(chars2 + "<"@ + spec_hex4_chars(p.0 as nat), "> <"@);
                lemma_encode_concat(
                    chars2 + "<"@ + spec_hex4_chars(p.0 as nat) + "> <"@,
                    spec_hex4_chars(p.1 as nat),
                );
                lemma_encode_concat(
                    chars2 + "<"@ + spec_hex4_chars(p.0 as nat) + "> <"@ + spec_hex4_chars(
                        p.1 as nat,
                    ),
                    ">\n"@,
                );
                assert(block@.take(ei + 1).drop_last() =~= block@.take(ei as int));
                assert(block@.take(ei + 1).last() == block@[ei as int]);
                assert(spec_entry_text(block@[ei as int]) =~= "<"@ + spec_hex4_chars(p.0 as nat)
                    + "> <"@ + spec_hex4_chars(p.1 as nat) + ">\n"@);
                assert(chars1 + spec_entries_text(block@.take(ei + 1)) =~= chars2 + "<"@
                    + spec_hex4_chars(p.0 as nat) + "> <"@ + spec_hex4_chars(p.1 as nat) + ">\n"@);
            }
        }
        push_str_bytes(&mut out, "endbfchar\r\n");
        proof {
            assert(block@.take(ne as int) =~= block@);
            lemma_encode_concat(chars1 + spec_entries_text(block@), "endbfchar\r\n"@);
            assert(sblocks.take(bi + 1).drop_last() =~= sblocks.take(bi as int));
            assert(sblocks.take(bi + 1).last() == sblocks[bi as int]);
            assert(sblocks[bi as int] == block@);
            assert(spec_block_text(block@) =~= spec_dec_chars(block@.len() as nat)
                + " beginbfchar\r\n"@ + spec_entries_text(block@) + "endbfchar\r\n"@);
            assert(head + spec_blocks_text(sblocks.take(bi + 1)) =~= chars1 + spec_entries_text(
                block@,
            ) + "endbfchar\r\n"@);
        }
    }
    push_str_bytes(
        &mut out,
        "endcmap\nCMapName currentdict /CMap defineresource pop\nend\nend",
    );
    proof {
        assert(sblocks.take(nb as int) =~= sblocks);
        lemma_encode_concat(head + spec_blocks_text(sblocks), spec_cmap_epilogue());
        assert(head + spec_blocks_text(sblocks) + spec_cmap_epilogue() =~= spec_cmap_text(
            face_name@,
            sblocks,
        ));
        encode_utf8_valid_utf8(spec_cmap_text(face_name@, sblocks));
        encode_utf8_decode_utf8(spec_cmap_text(face_name@, sblocks));
    }
    string_from_utf8_bytes(out)
}

} // verus!
