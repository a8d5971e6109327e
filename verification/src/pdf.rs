//! Trusted boundary to the PDF document sink, and the font embedder.
//!
//! The embedder synthesizes the objects a PDF needs to reference a font as
//! a Type0/CIDFontType2 composite font: the verbatim font-file stream, the
//! FontDescriptor, the compressed width array and the ToUnicode CMap
//! stream.  All content — numbers, names, orders, the CMap text — is
//! computed by verified code; each wrapper below only moves one value into
//! the document object model with a single `lopdf` call.

use vstd::prelude::*;
use vstd::string::StrSliceExecFns;
use crate::font::Font;
use crate::source::lemma_find_u16_entry;
use crate::widths::compress_width_pairs;
use crate::widths::spec_strictly_ascending;
use crate::cmap::build_cmap_blocks;
use crate::cmap::generate_cid_to_unicode_map;
use crate::cmap::push_dec;
use crate::cmap::push_str_bytes;
use crate::cmap::string_from_utf8_bytes;
use crate::cmap::spec_dec_chars;
use crate::cmap::spec_cmap_text;
use crate::cmap::spec_cmap_blocks;
use crate::widths::spec_width_runs;
use vstd::utf8::encode_utf8;
use vstd::string::StringSliceAdditionalSpecFns;

verus! {

broadcast use vstd::string::group_string_axioms;

/// An in-memory PDF document: the sink that allocates object ids.
#[verifier::external_type_specification]
#[verifier::external_body]
pub struct ExDocument(lopdf::Document);

/// A PDF object value.
#[verifier::external_type_specification]
#[verifier::external_body]
pub struct ExObject(lopdf::Object);

/// A PDF dictionary.
#[verifier::external_type_specification]
#[verifier::external_body]
pub struct ExDictionary(lopdf::Dictionary);

/// A PDF stream object.
#[verifier::external_type_specification]
#[verifier::external_body]
pub struct ExStream(lopdf::Stream);

/// The value a dictionary binds to the UTF-8 encoding of this key, if
/// any.  The contents of a dictionary are observable only through this.
pub uninterp spec fn dict_entry(d: lopdf::Dictionary, key: Seq<char>) -> Option<lopdf::Object>;

/// The integer an object holds, when it is an Integer.
pub uninterp spec fn obj_as_integer(o: lopdf::Object) -> Option<i64>;

/// The name bytes an object holds, when it is a Name.
pub uninterp spec fn obj_as_name(o: lopdf::Object) -> Option<Seq<u8>>;

/// The string bytes an object holds, when it is a literal String.
pub uninterp spec fn obj_as_literal(o: lopdf::Object) -> Option<Seq<u8>>;

/// The object id an object holds, when it is a Reference.
pub uninterp spec fn obj_as_reference(o: lopdf::Object) -> Option<(u32, u16)>;

/// The element list an object holds, when it is an Array.
pub uninterp spec fn obj_as_array(o: lopdf::Object) -> Option<Seq<lopdf::Object>>;

/// The dictionary an object holds, when it is a Dictionary.
pub uninterp spec fn obj_as_dictionary(o: lopdf::Object) -> Option<lopdf::Dictionary>;

/// The stream an object holds, when it is a Stream.
pub uninterp spec fn obj_as_stream(o: lopdf::Object) -> Option<lopdf::Stream>;

/// A stream's dictionary.
pub uninterp spec fn stream_dict(s: lopdf::Stream) -> lopdf::Dictionary;

/// A stream's content bytes.
pub uninterp spec fn stream_content(s: lopdf::Stream) -> Seq<u8>;

/// Whether the writer may compress the stream.
pub uninterp spec fn stream_allows_compression(s: lopdf::Stream) -> bool;

/// The object a document stores under an id, if any.
pub uninterp spec fn doc_object_at(d: lopdf::Document, id: (u32, u16)) -> Option<lopdf::Object>;

/// The ids of all objects a document stores.
pub uninterp spec fn doc_object_ids(d: lopdf::Document) -> Set<(u32, u16)>;

/// Relies on `lopdf::Object::Integer`: wraps an integer value.
#[verifier::external_body]
fn obj_integer(i: i64) -> (r: lopdf::Object)
    ensures
        obj_as_integer(r) == Some(i),
{
    lopdf::Object::Integer(i)
}

/// Relies on `lopdf::Object::Name`: wraps name bytes.
#[verifier::external_body]
fn obj_name(n: Vec<u8>) -> (r: lopdf::Object)
    ensures
        obj_as_name(r) == Some(n@),
{
    lopdf::Object::Name(n)
}

/// Relies on `lopdf::Object::String` with `StringFormat::Literal`: wraps a
/// literal string.
#[verifier::external_body]
fn obj_string_literal(s: Vec<u8>) -> (r: lopdf::Object)
    ensures
        obj_as_literal(r) == Some(s@),
{
    lopdf::Object::String(s, lopdf::StringFormat::Literal)
}

/// Relies on `lopdf::Object::Reference`: wraps an object id.
#[verifier::external_body]
fn obj_reference(id: (u32, u16)) -> (r: lopdf::Object)
    ensures
        obj_as_reference(r) == Some(id),
{
    lopdf::Object::Reference(id)
}

/// Relies on `lopdf::Object::Array`: wraps an object list.
#[verifier::external_body]
fn obj_array(items: Vec<lopdf::Object>) -> (r: lopdf::Object)
    ensures
        obj_as_array(r) == Some(items@),
{
    lopdf::Object::Array(items)
}

/// Relies on `lopdf::Object::Dictionary`: wraps a dictionary.
#[verifier::external_body]
fn obj_dictionary(d: lopdf::Dictionary) -> (r: lopdf::Object)
    ensures
        obj_as_dictionary(r) == Some(d),
{
    lopdf::Object::Dictionary(d)
}

/// Relies on `lopdf::Object::Stream`: wraps a stream object.
#[verifier::external_body]
fn obj_stream(s: lopdf::Stream) -> (r: lopdf::Object)
    ensures
        obj_as_stream(r) == Some(s),
{
    lopdf::Object::Stream(s)
}

/// Relies on `lopdf::Dictionary::new`: an empty dictionary.
#[verifier::external_body]
fn dict_new() -> (r: lopdf::Dictionary)
    ensures
        forall|k: Seq<char>| dict_entry(r, k) is None,
{
    lopdf::Dictionary::new()
}

/// Relies on `lopdf::Dictionary::set`: binds the key to the value and
/// leaves every other binding as it was.
#[verifier::external_body]
fn dict_set(d: &mut lopdf::Dictionary, key: &str, value: lopdf::Object)
    ensures
        dict_entry(*final(d), key@) == Some(value),
        forall|k: Seq<char>| k != key@ ==> dict_entry(*final(d), k) == dict_entry(*old(d), k),
{
    d.set(key, value);
}

/// Relies on `lopdf::Stream::new`: a stream with the given dictionary and
/// content bytes.  It records the content length under the key `Length`
/// itself and allows compression by default.
#[verifier::external_body]
fn stream_new(dict: lopdf::Dictionary, content: Vec<u8>) -> (r: lopdf::Stream)
    ensures
        stream_content(r) == content@,
        stream_allows_compression(r),
        forall|k: Seq<char>|
            k != "Length"@ ==> dict_entry(stream_dict(r), k) == dict_entry(dict, k),
{
    lopdf::Stream::new(dict, content)
}

/// Relies on `lopdf::Stream::with_compression`: sets whether the writer may
/// compress the stream (font files must stay uncompressed), and changes
/// nothing else.
#[verifier::external_body]
fn stream_set_compression(s: lopdf::Stream, allow: bool) -> (r: lopdf::Stream)
    ensures
        stream_allows_compression(r) == allow,
        stream_content(r) == stream_content(s),
        stream_dict(r) == stream_dict(s),
{
    s.with_compression(allow)
}

/// Relies on `lopdf::Document::add_object`: stores the object under a
/// fresh id (the document allocates `max_id + 1`, which it keeps above
/// every stored id) and returns that id; no other stored object changes.
#[verifier::external_body]
fn doc_add_object(doc: &mut lopdf::Document, obj: lopdf::Object) -> (r: (u32, u16))
    ensures
        !doc_object_ids(*old(doc)).contains(r),
        doc_object_ids(*final(doc)) == doc_object_ids(*old(doc)).insert(r),
        doc_object_at(*final(doc), r) == Some(obj),
        forall|id: (u32, u16)|
            id != r ==> doc_object_at(*final(doc), id) == doc_object_at(*old(doc), id),
{
    doc.add_object(obj)
}

/// The resource name for the font at `index`: `F` followed by the decimal
/// index.
pub open spec fn spec_face_name(index: int) -> Seq<char> {
    "F"@ + spec_dec_chars(index as nat)
}

/// Builds the resource name `F{index}`.
fn make_face_name(index: usize) -> (r: String)
    ensures
        r@ == spec_face_name(index as int),
{
    let mut bytes: Vec<u8> = Vec::new();
    push_str_bytes(&mut bytes, "F");
    push_dec(&mut bytes, index as u64);
    proof {
        crate::cmap::lemma_encode_concat("F"@, spec_dec_chars(index as nat));
        vstd::utf8::encode_utf8_valid_utf8(spec_face_name(index as int));
        vstd::utf8::encode_utf8_decode_utf8(spec_face_name(index as int));
    }
    string_from_utf8_bytes(bytes)
}

/// Keys strictly ascending, and small enough for glyph ids.
pub open spec fn spec_entries_sorted(s: Seq<(u32, (u32, u32))>) -> bool {
    &&& (forall|i: int, j: int| 0 <= i < j < s.len() ==> (#[trigger] s[i]).0 < (#[trigger] s[j]).0)
    &&& (forall|i: int| 0 <= i < s.len() ==> (#[trigger] s[i]).0 <= 65535)
}

/// The list after inserting `(k, val)` at its sorted position; a key that
/// is already bound keeps its old value.
pub open spec fn spec_insert_sorted(s: Seq<(u32, (u32, u32))>, k: u32, val: (u32, u32)) -> Seq<
    (u32, (u32, u32)),
>
    decreases s.len(),
{
    if s.len() == 0 {
        seq![(k, val)]
    } else if k < s[0].0 {
        seq![(k, val)] + s
    } else if k == s[0].0 {
        s
    } else {
        seq![s[0]] + spec_insert_sorted(s.skip(1), k, val)
    }
}

proof fn lemma_insert_sorted_at(s: Seq<(u32, (u32, u32))>, k: u32, val: (u32, u32), idx: int)
    requires
        0 <= idx <= s.len(),
        forall|j: int| 0 <= j < idx ==> (#[trigger] s[j]).0 < k,
        idx < s.len() ==> s[idx].0 > k,
    ensures
        spec_insert_sorted(s, k, val) == s.take(idx) + seq![(k, val)] + s.skip(idx),
    decreases idx,
{
    if idx == 0 {
        assert(s.take(0) =~= Seq::<(u32, (u32, u32))>::empty());
        assert(s.skip(0) =~= s);
        if s.len() == 0 {
            assert(spec_insert_sorted(s, k, val) =~= s.take(0) + seq![(k, val)] + s.skip(0));
        } else {
            assert(spec_insert_sorted(s, k, val) =~= s.take(0) + seq![(k, val)] + s.skip(0));
        }
    } else {
        assert(s[0].0 < k);
        let rest = s.skip(1);
        assert(forall|j: int| 0 <= j < idx - 1 ==> (#[trigger] rest[j]).0 < k);
        if idx - 1 < rest.len() {
            assert(rest[idx - 1] == s[idx]);
        }
        lemma_insert_sorted_at(rest, k, val, idx - 1);
        assert(rest.take(idx - 1) =~= s.skip(1).take(idx - 1));
        assert(seq![s[0]] + (rest.take(idx - 1) + seq![(k, val)] + rest.skip(idx - 1)) =~= s.take(
            idx,
        ) + seq![(k, val)] + s.skip(idx));
    }
}

proof fn lemma_insert_sorted_present(s: Seq<(u32, (u32, u32))>, k: u32, val: (u32, u32), idx: int)
    requires
        0 <= idx < s.len(),
        forall|j: int| 0 <= j < idx ==> (#[trigger] s[j]).0 < k,
        s[idx].0 == k,
    ensures
        spec_insert_sorted(s, k, val) == s,
    decreases idx,
{
    if idx == 0 {
    } else {
        assert(s[0].0 < k);
        let rest = s.skip(1);
        assert(forall|j: int| 0 <= j < idx - 1 ==> (#[trigger] rest[j]).0 < k);
        assert(rest[idx - 1] == s[idx]);
        lemma_insert_sorted_present(rest, k, val, idx - 1);
        assert(seq![s[0]] + rest =~= s);
    }
}

/// Inserts `(k, val)` at its sorted position; an already-present key is
/// left as it is.
fn insert_entry_sorted(v: &mut Vec<(u32, (u32, u32))>, k: u32, val: (u32, u32))
    requires
        spec_entries_sorted(old(v)@),
        k <= 65535,
    ensures
        final(v)@ == spec_insert_sorted(old(v)@, k, val),
        spec_entries_sorted(final(v)@),
{
    let n = v.len();
    let mut idx: usize = 0;
    while idx < n && v[idx].0 < k
        invariant
            n == v@.len(),
            idx <= n,
            spec_entries_sorted(v@),
            forall|j: int| 0 <= j < idx ==> (#[trigger] v@[j]).0 < k,
        decreases n - idx,
    {
        idx = idx + 1;
    }
    if idx < n && v[idx].0 == k {
        proof {
            lemma_insert_sorted_present(v@, k, val, idx as int);
        }
        return ;
    }
    proof {
        lemma_insert_sorted_at(v@, k, val, idx as int);
        assert(v@.insert(idx as int, (k, val)) =~= v@.take(idx as int) + seq![(k, val)] + v@.skip(
            idx as int,
        ));
    }
    v.insert(idx, (k, val));
}

/// The value bound to `key` is a Name holding `name`.
pub open spec fn entry_is_name(d: lopdf::Dictionary, key: Seq<char>, name: Seq<u8>) -> bool {
    match dict_entry(d, key) {
        Some(o) => obj_as_name(o) == Some(name),
        None => false,
    }
}

/// The value bound to `key` is the Integer `v`.
pub open spec fn entry_is_int(d: lopdf::Dictionary, key: Seq<char>, v: i64) -> bool {
    match dict_entry(d, key) {
        Some(o) => obj_as_integer(o) == Some(v),
        None => false,
    }
}

/// The value bound to `key` is a Reference to `id`.
pub open spec fn entry_is_ref(d: lopdf::Dictionary, key: Seq<char>, id: (u32, u16)) -> bool {
    match dict_entry(d, key) {
        Some(o) => obj_as_reference(o) == Some(id),
        None => false,
    }
}

/// The value bound to `key` is a literal String holding `s`.
pub open spec fn entry_is_literal(d: lopdf::Dictionary, key: Seq<char>, s: Seq<u8>) -> bool {
    match dict_entry(d, key) {
        Some(o) => obj_as_literal(o) == Some(s),
        None => false,
    }
}

/// The object is an Array of exactly these Integers.
pub open spec fn spec_int_array_obj(o: lopdf::Object, ws: Seq<i64>) -> bool {
    match obj_as_array(o) {
        Some(a) => a.len() == ws.len() && (forall|j: int|
            0 <= j < ws.len() ==> obj_as_integer(#[trigger] a[j]) == Some(ws[j])),
        None => false,
    }
}

/// The object list is the `W` array for these runs: for each run, its low
/// glyph id as an Integer followed by the Array of its widths.
pub open spec fn spec_w_array_matches(objs: Seq<lopdf::Object>, runs: Seq<(u32, Seq<i64>)>) -> bool {
    &&& objs.len() == 2 * runs.len()
    &&& forall|i: int|
        0 <= i < runs.len() ==> {
            let rr = #[trigger] runs[i];
            obj_as_integer(objs[2 * i]) == Some(rr.0 as i64) && spec_int_array_obj(
                objs[2 * i + 1],
                rr.1,
            )
        }
}

/// The stream stored under `id`, if the document holds one there.
pub open spec fn spec_stream_obj_at(doc: lopdf::Document, id: (u32, u16)) -> Option<lopdf::Stream> {
    match doc_object_at(doc, id) {
        Some(o) => obj_as_stream(o),
        None => None,
    }
}

/// The CIDSystemInfo dictionary: Adobe / Identity / 0.
pub open spec fn spec_cid_system_info_matches(ci: lopdf::Dictionary) -> bool {
    &&& entry_is_literal(ci, "Registry"@, "Adobe".spec_bytes())
    &&& entry_is_literal(ci, "Ordering"@, "Identity".spec_bytes())
    &&& entry_is_int(ci, "Supplement"@, 0)
}

impl Font {
    /// The glyph-id-keyed (codepoint, width) entry list after the first
    /// `i` rows of the glyph table, seeded with the glyph-0 sentinel of
    /// codepoint 0 and width 1000; rows whose character has no metrics
    /// contribute nothing, and the first entry for a glyph id wins.
    pub open spec fn spec_embed_entries_at(self, i: int) -> Seq<(u32, (u32, u32))>
        decreases i,
    {
        if i <= 0 {
            spec_insert_sorted(Seq::empty(), 0, (0, 1000))
        } else {
            let prev = self.spec_embed_entries_at(i - 1);
            let p = self.glyph_ids@[i - 1];
            match self.spec_char_metrics(p.1) {
                Some(m) => spec_insert_sorted(prev, p.0 as u32, (p.1 as u32, m.width.num as u32)),
                None => prev,
            }
        }
    }

    /// The full embedding entry list, in ascending glyph id order.
    pub open spec fn spec_embed_entries(self) -> Seq<(u32, (u32, u32))> {
        self.spec_embed_entries_at(self.glyph_ids@.len() as int)
    }

    /// The largest glyph height over the first `i` glyph-table rows.
    pub open spec fn spec_embed_max_height_at(self, i: int) -> int
        decreases i,
    {
        if i <= 0 {
            0
        } else {
            let prev = self.spec_embed_max_height_at(i - 1);
            match self.spec_char_metrics(self.glyph_ids@[i - 1].1) {
                Some(m) => if m.height > prev {
                    m.height as int
                } else {
                    prev
                },
                None => prev,
            }
        }
    }

    /// The summed advance width over the first `i` glyph-table rows.
    pub open spec fn spec_embed_total_width_at(self, i: int) -> int
        decreases i,
    {
        if i <= 0 {
            0
        } else {
            let prev = self.spec_embed_total_width_at(i - 1);
            match self.spec_char_metrics(self.glyph_ids@[i - 1].1) {
                Some(m) => prev + m.width.num,
                None => prev,
            }
        }
    }

    /// The largest glyph height over the whole glyph table.
    pub open spec fn spec_embed_max_height(self) -> int {
        self.spec_embed_max_height_at(self.glyph_ids@.len() as int)
    }

    /// The whole-font summed width for the FontBBox, clamped to `i64`.
    pub open spec fn spec_bbox_width(self) -> i64 {
        let t = self.spec_embed_total_width_at(self.glyph_ids@.len() as int);
        if t > 0x7FFF_FFFF_FFFF_FFFF {
            0x7FFF_FFFF_FFFF_FFFF
        } else {
            t as i64
        }
    }

    /// A width scaled into the 1000-unit space, rounded toward zero.
    pub open spec fn spec_scaled_width(self, w: u32) -> i64 {
        ((w * 1000) / (self.units_per_em as int)) as i64
    }

    /// The (glyph id, scaled width) pairs handed to `W`-array compression.
    pub open spec fn spec_scaled_pairs(self) -> Seq<(u32, i64)> {
        Seq::new(
            self.spec_embed_entries().len(),
            |j: int|
                (self.spec_embed_entries()[j].0, self.spec_scaled_width(
                    self.spec_embed_entries()[j].1.1,
                )),
        )
    }

    /// The (glyph id, codepoint) pairs handed to ToUnicode bucketing.
    pub open spec fn spec_cmap_pairs(self) -> Seq<(u32, u32)> {
        Seq::new(
            self.spec_embed_entries().len(),
            |j: int| (self.spec_embed_entries()[j].0, self.spec_embed_entries()[j].1.0),
        )
    }

    /// The FontDescriptor contents: the derived vertical metrics (CapHeight
    /// approximated as Ascent), the fixed Flags/StemV/ItalicAngle, the
    /// font-file reference, and the whole-font FontBBox.
    pub open spec fn spec_descriptor_matches(
        self,
        d: lopdf::Dictionary,
        name_bytes: Seq<u8>,
        file_id: (u32, u16),
    ) -> bool {
        &&& entry_is_name(d, "Type"@, "FontDescriptor".spec_bytes())
        &&& entry_is_name(d, "fontName"@, name_bytes)
        &&& entry_is_int(d, "Ascent"@, self.metrics.ascent)
        &&& entry_is_int(d, "Descent"@, self.metrics.descent)
        &&& entry_is_int(d, "CapHeight"@, self.metrics.ascent)
        &&& entry_is_int(d, "ItalicAngle"@, 0)
        &&& entry_is_int(d, "Flags"@, 32)
        &&& entry_is_int(d, "StemV"@, 80)
        &&& entry_is_ref(d, "FontFile2"@, file_id)
        &&& match dict_entry(d, "FontBBox"@) {
            Some(o) => spec_int_array_obj(
                o,
                seq![
                    0i64,
                    self.spec_embed_max_height() as i64,
                    self.spec_bbox_width(),
                    self.spec_embed_max_height() as i64,
                ],
            ),
            None => false,
        }
    }

    /// The descendant CIDFontType2 dictionary: identity CIDSystemInfo, the
    /// compressed `W` array, default width 1000, and the descriptor
    /// reference.
    pub open spec fn spec_descendant_matches(
        self,
        dd: lopdf::Dictionary,
        name_bytes: Seq<u8>,
        desc_id: (u32, u16),
    ) -> bool {
        &&& entry_is_name(dd, "Type"@, "Font".spec_bytes())
        &&& entry_is_name(dd, "Subtype"@, "CIDFontType2".spec_bytes())
        &&& entry_is_name(dd, "BaseFont"@, name_bytes)
        &&& match dict_entry(dd, "CIDSystemInfo"@) {
            Some(o) => match obj_as_dictionary(o) {
                Some(ci) => spec_cid_system_info_matches(ci),
                None => false,
            },
            None => false,
        }
        &&& match dict_entry(dd, "W"@) {
            Some(o) => match obj_as_array(o) {
                Some(wl) => spec_w_array_matches(wl, spec_width_runs(self.spec_scaled_pairs())),
                None => false,
            },
            None => false,
        }
        &&& entry_is_int(dd, "DW"@, 1000)
        &&& entry_is_ref(dd, "FontDescriptor"@, desc_id)
    }

    /// The returned top-level Type0 dictionary: identity encoding, exactly
    /// one descendant font, and the ToUnicode reference.
    pub open spec fn spec_top_dict_matches(
        self,
        d: lopdf::Dictionary,
        name_bytes: Seq<u8>,
        desc_id: (u32, u16),
        cmap_id: (u32, u16),
    ) -> bool {
        &&& entry_is_name(d, "Type"@, "Font".spec_bytes())
        &&& entry_is_name(d, "Subtype"@, "Type0".spec_bytes())
        &&& entry_is_name(d, "BaseFont"@, name_bytes)
        &&& entry_is_name(d, "Encoding"@, "Identity-H".spec_bytes())
        &&& match dict_entry(d, "DescendantFonts"@) {
            Some(o) => match obj_as_array(o) {
                Some(a) => a.len() == 1 && match obj_as_dictionary(a[0]) {
                    Some(dd) => self.spec_descendant_matches(dd, name_bytes, desc_id),
                    None => false,
                },
                None => false,
            },
            None => false,
        }
        &&& entry_is_ref(d, "ToUnicode"@, cmap_id)
    }

    /// What embedding does to the document and returns, with the three
    /// allocated ids made explicit: the document gains exactly the
    /// ToUnicode CMap stream, the uncompressed verbatim font-file stream
    /// (tagged Length1), and the FontDescriptor, nothing else changes, and
    /// the returned dictionary is the full Type0/CIDFontType2 pair.
    pub open spec fn spec_embedded_with(
        self,
        old_doc: lopdf::Document,
        new_doc: lopdf::Document,
        index: int,
        r: lopdf::Dictionary,
        cmap_id: (u32, u16),
        file_id: (u32, u16),
        desc_id: (u32, u16),
    ) -> bool {
        let name_bytes = encode_utf8(spec_face_name(index));
        &&& cmap_id != file_id && cmap_id != desc_id && file_id != desc_id
        &&& doc_object_ids(new_doc) == doc_object_ids(old_doc).insert(cmap_id).insert(
            file_id,
        ).insert(desc_id)
        &&& (forall|id: (u32, u16)|
            id != cmap_id && id != file_id && id != desc_id ==> doc_object_at(new_doc, id)
                == doc_object_at(old_doc, id))
        &&& match spec_stream_obj_at(new_doc, cmap_id) {
            Some(s) => stream_content(s) == encode_utf8(
                spec_cmap_text(spec_face_name(index), spec_cmap_blocks(self.spec_cmap_pairs())),
            ) && stream_allows_compression(s),
            None => false,
        }
        &&& match spec_stream_obj_at(new_doc, file_id) {
            Some(s) => stream_content(s) == self.raw_bytes@ && !stream_allows_compression(s)
                && entry_is_int(stream_dict(s), "Length1"@, self.raw_bytes@.len() as i64),
            None => false,
        }
        &&& match doc_object_at(new_doc, desc_id) {
            Some(o) => match obj_as_dictionary(o) {
                Some(d) => self.spec_descriptor_matches(d, name_bytes, file_id),
                None => false,
            },
            None => false,
        }
        &&& self.spec_top_dict_matches(r, name_bytes, desc_id, cmap_id)
    }
}

proof fn lemma_scaled_width_range(w: int, d: int)
    requires
        0 <= w <= 0xFFFF_FFFF,
        1 <= d,
    ensures
        0 <= (w * 1000) / d <= 0xFFFF_FFFF * 1000,
{
    assert(0 <= (w * 1000) / d <= 0xFFFF_FFFF * 1000) by (nonlinear_arith)
        requires
            0 <= w <= 0xFFFF_FFFF,
            1 <= d,
    ;
}

impl Font {
    /// Registers this font with the document: a verbatim uncompressed
    /// font-file stream, the FontDescriptor, the run-length compressed
    /// width array with DW 1000, and the ToUnicode CMap stream, assembled
    /// into the Type0/CIDFontType2 dictionary pair that is returned.  The
    /// contract pins the whole exchange: every entry of the returned
    /// dictionaries, the contents of the three objects the document gains,
    /// and that nothing else in the document changes.
    #[verifier::rlimit(60)]
    pub fn embed_lopdf(&self, doc: &mut lopdf::Document, index: usize) -> (r: lopdf::Dictionary)
        requires
            self.wf(),
        ensures
            exists|cmap_id: (u32, u16), file_id: (u32, u16), desc_id: (u32, u16)|
                self.spec_embedded_with(
                    *old(doc),
                    *final(doc),
                    index as int,
                    r,
                    cmap_id,
                    file_id,
                    desc_id,
                ),
    {
        let face_name = make_face_name(index);

        // verbatim copy of the raw font bytes
        let nb = self.raw_bytes.len();
        let mut buf: Vec<u8> = Vec::new();
        for i in 0..nb
            invariant
                nb == self.raw_bytes@.len(),
                buf@ == self.raw_bytes@.take(i as int),
        {
            buf.push(self.raw_bytes[i]);
            proof {
                assert(self.raw_bytes@.take(i + 1) =~= self.raw_bytes@.take(i as int).push(
                    self.raw_bytes@[i as int],
                ));
            }
        }
        proof {
            assert(buf@ =~= self.raw_bytes@);
        }
        let mut font_stream_dict = dict_new();
        dict_set(&mut font_stream_dict, "Length1", obj_integer(nb as i64));
        let font_stream = stream_set_compression(stream_new(font_stream_dict, buf), false);

        // glyph id -> (codepoint, width) entries in ascending id order,
        // seeded with the .notdef sentinel of width 1000
        let mut entries: Vec<(u32, (u32, u32))> = Vec::new();
        insert_entry_sorted(&mut entries, 0, (0, 1000));
        let mut max_height: i64 = 0;
        let mut total_width: i128 = 0;
        let ng = self.glyph_ids.len();
        for gi in 0..ng
            invariant
                self.wf(),
                ng == self.glyph_ids@.len(),
                spec_entries_sorted(entries@),
                entries@ == self.spec_embed_entries_at(gi as int),
                max_height as int == self.spec_embed_max_height_at(gi as int),
                total_width as int == self.spec_embed_total_width_at(gi as int),
                0 <= total_width <= 65535 * (gi as int),
        {
            let (gid, c) = self.glyph_ids[gi];
            match self.glyph_metrics_for_char(c) {
                Some(m) => {
                    proof {
                        let g2 = self.spec_char_gid(c).unwrap();
                        lemma_find_u16_entry(self.glyph_metrics@, g2);
                    }
                    if m.height > max_height {
                        max_height = m.height;
                    }
                    total_width = total_width + (m.width.num as i128);
                    insert_entry_sorted(&mut entries, gid as u32, (c as u32, m.width.num as u32));
                },
                None => {},
            }
        }
        proof {
            assert(entries@ == self.spec_embed_entries());
            assert(max_height as int == self.spec_embed_max_height());
        }

        // ToUnicode CMap: bucket the (gid, codepoint) pairs into blocks and
        // render the CMap text
        let ne = entries.len();
        let mut cmap_pairs: Vec<(u32, u32)> = Vec::new();
        for ei in 0..ne
            invariant
                ne == entries@.len(),
                entries@ == self.spec_embed_entries(),
                cmap_pairs@.len() == ei,
                forall|j: int|
                    0 <= j < ei ==> #[trigger] cmap_pairs@[j] == (entries@[j].0, entries@[j].1.0),
        {
            cmap_pairs.push((entries[ei].0, entries[ei].1.0));
        }
        proof {
            assert(cmap_pairs@ =~= self.spec_cmap_pairs());
        }
        let blocks = build_cmap_blocks(&cmap_pairs);
        let cid_to_unicode_map = generate_cid_to_unicode_map(face_name.clone(), blocks);
        proof {
            let sb = blocks@.map_values(|b: Vec<(u32, u32)>| b@);
            assert(sb =~= spec_cmap_blocks(self.spec_cmap_pairs()));
        }
        let cmap_stream = stream_new(dict_new(), cid_to_unicode_map.as_str().as_bytes_vec());
        let cid_to_unicode_map_stream_id = doc_add_object(doc, obj_stream(cmap_stream));

        // W array: compress the scaled widths into `low [w0 w1 ...]` runs
        let mut width_pairs: Vec<(u32, i64)> = Vec::new();
        for ei in 0..ne
            invariant
                self.wf(),
                ne == entries@.len(),
                entries@ == self.spec_embed_entries(),
                spec_entries_sorted(entries@),
                width_pairs@.len() == ei,
                forall|j: int|
                    0 <= j < ei ==> #[trigger] width_pairs@[j] == (
                        entries@[j].0,
                        self.spec_scaled_width(entries@[j].1.1),
                    ),
        {
            let w = entries[ei].1.1;
            proof {
                lemma_scaled_width_range(w as int, self.units_per_em as int);
            }
            let scaled = ((w as u64) * 1000 / (self.units_per_em as u64)) as i64;
            width_pairs.push((entries[ei].0, scaled));
        }
        proof {
            assert(width_pairs@ =~= self.spec_scaled_pairs());
            assert(spec_strictly_ascending(width_pairs@));
        }
        let runs = compress_width_pairs(&width_pairs);
        let ghost srs = spec_width_runs(self.spec_scaled_pairs());
        let mut widths_list: Vec<lopdf::Object> = Vec::new();
        let nr = runs.len();
        for ri in 0..nr
            invariant
                nr == runs@.len(),
                nr == srs.len(),
                forall|i: int|
                    0 <= i < nr ==> (#[trigger] runs@[i]).0 == srs[i].0 && runs@[i].1@ == srs[i].1,
                spec_w_array_matches(widths_list@, srs.take(ri as int)),
        {
            widths_list.push(obj_integer(runs[ri].0 as i64));
            let mut ws: Vec<lopdf::Object> = Vec::new();
            let nw = runs[ri].1.len();
            for wi in 0..nw
                invariant
                    nr == runs@.len(),
                    nr == srs.len(),
                    ri < nr,
                    nw == runs@[ri as int].1@.len(),
                    runs@[ri as int].1@ == srs[ri as int].1,
                    ws@.len() == wi,
                    forall|j: int|
                        0 <= j < wi ==> obj_as_integer(#[trigger] ws@[j]) == Some(
                            srs[ri as int].1[j],
                        ),
            {
                ws.push(obj_integer(runs[ri].1[wi]));
            }
            widths_list.push(obj_array(ws));
            proof {
                let pre = srs.take(ri as int);
                let post = srs.take(ri as int + 1);
                assert forall|i: int| 0 <= i < post.len() implies {
                    let rr = #[trigger] post[i];
                    obj_as_integer(widths_list@[2 * i]) == Some(rr.0 as i64) && spec_int_array_obj(
                        widths_list@[2 * i + 1],
                        rr.1,
                    )
                } by {
                    if i < ri {
                        assert(post[i] == pre[i]);
                        assert(widths_list@[2 * i] == widths_list@.subrange(
                            0,
                            2 * ri,
                        )[2 * i]) by {
                            assert(widths_list@.subrange(0, 2 * ri as int)[2 * i] == widths_list@[2
                                * i]);
                        }
                    } else {
                        assert(post[i] == srs[ri as int]);
                        assert(widths_list@[2 * i] == widths_list@[widths_list@.len() - 2]);
                        assert(widths_list@[2 * i + 1] == widths_list@[widths_list@.len() - 1]);
                    }
                }
                assert(widths_list@.subrange(0, 2 * ri as int) =~= widths_list@.subrange(
                    0,
                    widths_list@.len() - 2,
                ));
            }
        }
        proof {
            assert(srs.take(nr as int) =~= srs);
        }

        // The dictionary contracts speak per key, so the keys of each
        // dictionary must be known pairwise distinct; a length or first
        // differing character witnesses each pair once the literals are
        // revealed.
        proof {
            reveal_strlit("Length1");
            reveal_strlit("Length");
            reveal_strlit("Type");
            reveal_strlit("fontName");
            reveal_strlit("Ascent");
            reveal_strlit("Descent");
            reveal_strlit("CapHeight");
            reveal_strlit("ItalicAngle");
            reveal_strlit("Flags");
            reveal_strlit("StemV");
            reveal_strlit("FontFile2");
            reveal_strlit("FontBBox");
            reveal_strlit("Registry");
            reveal_strlit("Ordering");
            reveal_strlit("Supplement");
            reveal_strlit("Subtype");
            reveal_strlit("BaseFont");
            reveal_strlit("CIDSystemInfo");
            reveal_strlit("W");
            reveal_strlit("DW");
            reveal_strlit("FontDescriptor");
            reveal_strlit("Encoding");
            reveal_strlit("DescendantFonts");
            reveal_strlit("ToUnicode");
            assert("Ascent"@.len() != "CapHeight"@.len());
            assert("Ascent"@ != "CapHeight"@);
            assert("Ascent"@.len() != "Descent"@.len());
            assert("Ascent"@ != "Descent"@);
            assert("Ascent"@.len() != "Flags"@.len());
            assert("Ascent"@ != "Flags"@);
            assert("Ascent"@.len() != "FontBBox"@.len());
            assert("Ascent"@ != "FontBBox"@);
            assert("Ascent"@.len() != "FontFile2"@.len());
            assert("Ascent"@ != "FontFile2"@);
            assert("Ascent"@.len() != "ItalicAngle"@.len());
            assert("Ascent"@ != "ItalicAngle"@);
            assert("Ascent"@.len() != "StemV"@.len());
            assert("Ascent"@ != "StemV"@);
            assert("Ascent"@.len() != "Type"@.len());
            assert("Ascent"@ != "Type"@);
            assert("Ascent"@.len() != "fontName"@.len());
            assert("Ascent"@ != "fontName"@);
            assert("BaseFont"@.len() != "CIDSystemInfo"@.len());
            assert("BaseFont"@ != "CIDSystemInfo"@);
            assert("BaseFont"@.len() != "DW"@.len());
            assert("BaseFont"@ != "DW"@);
            assert("BaseFont"@.len() != "DescendantFonts"@.len());
            assert("BaseFont"@ != "DescendantFonts"@);
            assert("BaseFont"@[0] != "Encoding"@[0]);
            assert("BaseFont"@ != "Encoding"@);
            assert("BaseFont"@.len() != "FontDescriptor"@.len());
            assert("BaseFont"@ != "FontDescriptor"@);
            assert("BaseFont"@.len() != "Subtype"@.len());
            assert("BaseFont"@ != "Subtype"@);
            assert("BaseFont"@.len() != "ToUnicode"@.len());
            assert("BaseFont"@ != "ToUnicode"@);
            assert("BaseFont"@.len() != "Type"@.len());
            assert("BaseFont"@ != "Type"@);
            assert("BaseFont"@.len() != "W"@.len());
            assert("BaseFont"@ != "W"@);
            assert("CIDSystemInfo"@.len() != "DW"@.len());
            assert("CIDSystemInfo"@ != "DW"@);
            assert("CIDSystemInfo"@.len() != "FontDescriptor"@.len());
            assert("CIDSystemInfo"@ != "FontDescriptor"@);
            assert("CIDSystemInfo"@.len() != "Subtype"@.len());
            assert("CIDSystemInfo"@ != "Subtype"@);
            assert("CIDSystemInfo"@.len() != "Type"@.len());
            assert("CIDSystemInfo"@ != "Type"@);
            assert("CIDSystemInfo"@.len() != "W"@.len());
            assert("CIDSystemInfo"@ != "W"@);
            assert("CapHeight"@.len() != "Descent"@.len());
            assert("CapHeight"@ != "Descent"@);
            assert("CapHeight"@.len() != "Flags"@.len());
            assert("CapHeight"@ != "Flags"@);
            assert("CapHeight"@.len() != "FontBBox"@.len());
            assert("CapHeight"@ != "FontBBox"@);
            assert("CapHeight"@[0] != "FontFile2"@[0]);
            assert("CapHeight"@ != "FontFile2"@);
            assert("CapHeight"@.len() != "ItalicAngle"@.len());
            assert("CapHeight"@ != "ItalicAngle"@);
            assert("CapHeight"@.len() != "StemV"@.len());
            assert("CapHeight"@ != "StemV"@);
            assert("CapHeight"@.len() != "Type"@.len());
            assert("CapHeight"@ != "Type"@);
            assert("CapHeight"@.len() != "fontName"@.len());
            assert("CapHeight"@ != "fontName"@);
            assert("DW"@.len() != "FontDescriptor"@.len());
            assert("DW"@ != "FontDescriptor"@);
            assert("DW"@.len() != "Subtype"@.len());
            assert("DW"@ != "Subtype"@);
            assert("DW"@.len() != "Type"@.len());
            assert("DW"@ != "Type"@);
            assert("DW"@.len() != "W"@.len());
            assert("DW"@ != "W"@);
            assert("DescendantFonts"@.len() != "Encoding"@.len());
            assert("DescendantFonts"@ != "Encoding"@);
            assert("DescendantFonts"@.len() != "Subtype"@.len());
            assert("DescendantFonts"@ != "Subtype"@);
            assert("DescendantFonts"@.len() != "ToUnicode"@.len());
            assert("DescendantFonts"@ != "ToUnicode"@);
            assert("DescendantFonts"@.len() != "Type"@.len());
            assert("DescendantFonts"@ != "Type"@);
            assert("Descent"@.len() != "Flags"@.len());
            assert("Descent"@ != "Flags"@);
            assert("Descent"@.len() != "FontBBox"@.len());
            assert("Descent"@ != "FontBBox"@);
            assert("Descent"@.len() != "FontFile2"@.len());
            assert("Descent"@ != "FontFile2"@);
            assert("Descent"@.len() != "ItalicAngle"@.len());
            assert("Descent"@ != "ItalicAngle"@);
            assert("Descent"@.len() != "StemV"@.len());
            assert("Descent"@ != "StemV"@);
            assert("Descent"@.len() != "Type"@.len());
            assert("Descent"@ != "Type"@);
            assert("Descent"@.len() != "fontName"@.len());
            assert("Descent"@ != "fontName"@);
            assert("Encoding"@.len() != "Subtype"@.len());
            assert("Encoding"@ != "Subtype"@);
            assert("Encoding"@.len() != "ToUnicode"@.len());
            assert("Encoding"@ != "ToUnicode"@);
            assert("Encoding"@.len() != "Type"@.len());
            assert("Encoding"@ != "Type"@);
            assert("Flags"@.len() != "FontBBox"@.len());
            assert("Flags"@ != "FontBBox"@);
            assert("Flags"@.len() != "FontFile2"@.len());
            assert("Flags"@ != "FontFile2"@);
            assert("Flags"@.len() != "ItalicAngle"@.len());
            assert("Flags"@ != "ItalicAngle"@);
            assert("Flags"@[0] != "StemV"@[0]);
            assert("Flags"@ != "StemV"@);
            assert("Flags"@.len() != "Type"@.len());
            assert("Flags"@ != "Type"@);
            assert("Flags"@.len() != "fontName"@.len());
            assert("Flags"@ != "fontName"@);
            assert("FontBBox"@.len() != "FontFile2"@.len());
            assert("FontBBox"@ != "FontFile2"@);
            assert("FontBBox"@.len() != "ItalicAngle"@.len());
            assert("FontBBox"@ != "ItalicAngle"@);
            assert("FontBBox"@.len() != "StemV"@.len());
            assert("FontBBox"@ != "StemV"@);
            assert("FontBBox"@.len() != "Type"@.len());
            assert("FontBBox"@ != "Type"@);
            assert("FontBBox"@[0] != "fontName"@[0]);
            assert("FontBBox"@ != "fontName"@);
            assert("FontDescriptor"@.len() != "Subtype"@.len());
            assert("FontDescriptor"@ != "Subtype"@);
            assert("FontDescriptor"@.len() != "Type"@.len());
            assert("FontDescriptor"@ != "Type"@);
            assert("FontDescriptor"@.len() != "W"@.len());
            assert("FontDescriptor"@ != "W"@);
            assert("FontFile2"@.len() != "ItalicAngle"@.len());
            assert("FontFile2"@ != "ItalicAngle"@);
            assert("FontFile2"@.len() != "StemV"@.len());
            assert("FontFile2"@ != "StemV"@);
            assert("FontFile2"@.len() != "Type"@.len());
            assert("FontFile2"@ != "Type"@);
            assert("FontFile2"@.len() != "fontName"@.len());
            assert("FontFile2"@ != "fontName"@);
            assert("ItalicAngle"@.len() != "StemV"@.len());
            assert("ItalicAngle"@ != "StemV"@);
            assert("ItalicAngle"@.len() != "Type"@.len());
            assert("ItalicAngle"@ != "Type"@);
            assert("ItalicAngle"@.len() != "fontName"@.len());
            assert("ItalicAngle"@ != "fontName"@);
            assert("Length"@.len() != "Length1"@.len());
            assert("Length"@ != "Length1"@);
            assert("Ordering"@[0] != "Registry"@[0]);
            assert("Ordering"@ != "Registry"@);
            assert("Ordering"@.len() != "Supplement"@.len());
            assert("Ordering"@ != "Supplement"@);
            assert("Registry"@.len() != "Supplement"@.len());
            assert("Registry"@ != "Supplement"@);
            assert("StemV"@.len() != "Type"@.len());
            assert("StemV"@ != "Type"@);
            assert("StemV"@.len() != "fontName"@.len());
            assert("StemV"@ != "fontName"@);
            assert("Subtype"@.len() != "ToUnicode"@.len());
            assert("Subtype"@ != "ToUnicode"@);
            assert("Subtype"@.len() != "Type"@.len());
            assert("Subtype"@ != "Type"@);
            assert("Subtype"@.len() != "W"@.len());
            assert("Subtype"@ != "W"@);
            assert("ToUnicode"@.len() != "Type"@.len());
            assert("ToUnicode"@ != "Type"@);
            assert("Type"@.len() != "W"@.len());
            assert("Type"@ != "W"@);
            assert("Type"@.len() != "fontName"@.len());
            assert("Type"@ != "fontName"@);
        }
        let font_file_id = doc_add_object(doc, obj_stream(font_stream));
        let clamped_width: i64 = if total_width > 0x7FFF_FFFF_FFFF_FFFF {
            0x7FFF_FFFF_FFFF_FFFF
        } else {
            total_width as i64
        };
        let mut descriptor = dict_new();
        dict_set(&mut descriptor, "Type", obj_name("FontDescriptor".as_bytes_vec()));
        dict_set(&mut descriptor, "fontName", obj_name(face_name.as_str().as_bytes_vec()));
        dict_set(&mut descriptor, "Ascent", obj_integer(self.metrics.ascent));
        dict_set(&mut descriptor, "Descent", obj_integer(self.metrics.descent));
        dict_set(&mut descriptor, "CapHeight", obj_integer(self.metrics.ascent));
        dict_set(&mut descriptor, "ItalicAngle", obj_integer(0));
        dict_set(&mut descriptor, "Flags", obj_integer(32));
        dict_set(&mut descriptor, "StemV", obj_integer(80));
        dict_set(&mut descriptor, "FontFile2", obj_reference(font_file_id));
        let mut bbox: Vec<lopdf::Object> = Vec::new();
        bbox.push(obj_integer(0));
        bbox.push(obj_integer(max_height));
        bbox.push(obj_integer(clamped_width));
        bbox.push(obj_integer(max_height));
        dict_set(&mut descriptor, "FontBBox", obj_array(bbox));
        let ghost name_bytes = encode_utf8(spec_face_name(index as int));
        proof {
            assert(self.spec_descriptor_matches(descriptor, name_bytes, font_file_id));
        }
        let descriptor_id = doc_add_object(doc, obj_dictionary(descriptor));

        // descendant CIDFontType2 dictionary
        let mut cid_system_info = dict_new();
        dict_set(&mut cid_system_info, "Registry", obj_string_literal("Adobe".as_bytes_vec()));
        dict_set(&mut cid_system_info, "Ordering", obj_string_literal("Identity".as_bytes_vec()));
        dict_set(&mut cid_system_info, "Supplement", obj_integer(0));
        let mut desc_fonts = dict_new();
        dict_set(&mut desc_fonts, "Type", obj_name("Font".as_bytes_vec()));
        dict_set(&mut desc_fonts, "Subtype", obj_name("CIDFontType2".as_bytes_vec()));
        dict_set(&mut desc_fonts, "BaseFont", obj_name(face_name.as_str().as_bytes_vec()));
        dict_set(&mut desc_fonts, "CIDSystemInfo", obj_dictionary(cid_system_info));
        dict_set(&mut desc_fonts, "W", obj_array(widths_list));
        dict_set(&mut desc_fonts, "DW", obj_integer(1000));
        dict_set(&mut desc_fonts, "FontDescriptor", obj_reference(descriptor_id));
        proof {
            assert(self.spec_descendant_matches(desc_fonts, name_bytes, descriptor_id));
        }

        // top-level Type0 dictionary
        let mut font_dict = dict_new();
        dict_set(&mut font_dict, "Type", obj_name("Font".as_bytes_vec()));
        dict_set(&mut font_dict, "Subtype", obj_name("Type0".as_bytes_vec()));
        dict_set(&mut font_dict, "BaseFont", obj_name(face_name.as_str().as_bytes_vec()));
        dict_set(&mut font_dict, "Encoding", obj_name("Identity-H".as_bytes_vec()));
        let mut descendants: Vec<lopdf::Object> = Vec::new();
        descendants.push(obj_dictionary(desc_fonts));
        dict_set(&mut font_dict, "DescendantFonts", obj_array(descendants));
        dict_set(&mut font_dict, "ToUnicode", obj_reference(cid_to_unicode_map_stream_id));
        proof {
            assert(self.spec_embedded_with(
                *old(doc),
                *doc,
                index as int,
                font_dict,
                cid_to_unicode_map_stream_id,
                font_file_id,
                descriptor_id,
            ));
        }
        font_dict
    }
}

} // verus!
