//! Round-trip laws: decoding the normalized encoding of a document
//! gives the document back, and a well-formed external document (one in
//! the image of the encoder) survives decode-then-encode unchanged.
//!
//! Both hold only of documents whose metadata maps never have exactly
//! the two keys `"t"` and `"c"`: the encoding of such a map is
//! indistinguishable from a tag wrapper, and the rewrite rejects it
//! (its purported tag value is an object, never a string). The
//! `tag_safe` predicates state that closed-world side condition.

use vstd::prelude::*;

use crate::dec::dec_alignment;
use crate::dec::dec_attr;
use crate::dec::dec_block;
use crate::dec::dec_block_seq;
use crate::dec::dec_blocks;
use crate::dec::dec_bool;
use crate::dec::dec_citation;
use crate::dec::dec_citation_mode;
use crate::dec::dec_citation_seq;
use crate::dec::dec_citations;
use crate::dec::dec_def;
use crate::dec::dec_def_seq;
use crate::dec::dec_defs;
use crate::dec::dec_entry_seq;
use crate::dec::dec_inline;
use crate::dec::dec_inline_seq;
use crate::dec::dec_inlines;
use crate::dec::dec_int;
use crate::dec::dec_item_seq;
use crate::dec::dec_items;
use crate::dec::dec_list_attributes;
use crate::dec::dec_list_number_delim;
use crate::dec::dec_list_number_style;
use crate::dec::dec_math_type;
use crate::dec::dec_meta;
use crate::dec::dec_metavalue;
use crate::dec::dec_metavalue_seq;
use crate::dec::dec_mvmap;
use crate::dec::dec_mvs;
use crate::dec::dec_num;
use crate::dec::dec_num_seq;
use crate::dec::dec_nums;
use crate::dec::dec_pair;
use crate::dec::dec_pair_seq;
use crate::dec::dec_pairs;
use crate::dec::dec_pandoc;
use crate::dec::dec_quote_type;
use crate::dec::dec_row_seq;
use crate::dec::dec_rows;
use crate::dec::dec_str;
use crate::dec::dec_str_seq;
use crate::dec::dec_strs;
use crate::dec::dec_alignment_seq;
use crate::dec::dec_alignments;
use crate::dec::lemma_dec_alignment_seq;
use crate::dec::lemma_dec_block_seq;
use crate::dec::lemma_dec_citation_seq;
use crate::dec::lemma_dec_def_seq;
use crate::dec::lemma_dec_entry_seq;
use crate::dec::lemma_dec_inline_seq;
use crate::dec::lemma_dec_item_seq;
use crate::dec::lemma_dec_metavalue_seq;
use crate::dec::lemma_dec_num_seq;
use crate::dec::lemma_dec_pair_seq;
use crate::dec::lemma_dec_row_seq;
use crate::dec::lemma_dec_str_seq;
use crate::dec::dec_target;
use crate::dec::un_tag;
use crate::enc::enc_alignment;
use crate::enc::enc_alignment_arr;
use crate::enc::enc_attr;
use crate::enc::enc_block;
use crate::enc::enc_block_arr;
use crate::enc::enc_citation;
use crate::enc::enc_citation_arr;
use crate::enc::enc_citation_mode;
use crate::enc::enc_def_arr;
use crate::enc::enc_inline;
use crate::enc::enc_inline_arr;
use crate::enc::enc_items_arr;
use crate::enc::enc_list_attributes;
use crate::enc::enc_list_number_delim;
use crate::enc::enc_list_number_style;
use crate::enc::enc_math_type;
use crate::enc::enc_meta;
use crate::enc::enc_metamap_obj;
use crate::enc::enc_metavalue;
use crate::enc::enc_metavalue_arr;
use crate::enc::enc_num_arr;
use crate::enc::enc_pair_arr;
use crate::enc::enc_pandoc;
use crate::enc::enc_quote_type;
use crate::enc::enc_row_arr;
use crate::enc::enc_str_arr;
use crate::enc::enc_target;
use crate::enc::unit_payload;
use crate::enc::wtag;
use crate::json::JsonV;
use crate::json::key_at;
use crate::json::key_from;
use crate::model::Alignment;
use crate::model::AttrV;
use crate::model::BlockV;
use crate::model::CitationMode;
use crate::model::CitationV;
use crate::model::InlineV;
use crate::json::JNumV;
use crate::model::ListAttributesV;
use crate::model::ListNumberDelim;
use crate::model::ListNumberStyle;
use crate::model::MathType;
use crate::model::MetaValueV;
use crate::model::PandocV;
use crate::model::QuoteType;
use crate::model::TargetV;
use crate::norm::is_tag_shape;
use crate::norm::lemma_norm_entries;
use crate::norm::lemma_norm_seq;
use crate::norm::norm;
use crate::norm::norm_entries;
use crate::norm::norm_seq;

verus! {

/// A metadata value whose maps, at every depth, never have exactly the
/// keys `"t"` and `"c"`.
pub open spec fn mv_tag_safe(x: MetaValueV) -> bool
    decreases x, 1int,
{
    match x {
        MetaValueV::MetaMap(m) => !is_tag_shape(enc_metamap_obj(m)->Obj_0) && entries_tag_safe(m),
        MetaValueV::MetaList(v) => list_tag_safe(v),
        _ => true,
    }
}

pub open spec fn entries_tag_safe(m: Seq<(Seq<char>, MetaValueV)>) -> bool
    decreases m, 0int,
{
    m.len() == 0 || (entries_tag_safe(m.subrange(0, m.len() - 1)) && mv_tag_safe(
        m[m.len() - 1].1,
    ))
}

pub open spec fn list_tag_safe(v: Seq<MetaValueV>) -> bool
    decreases v, 0int,
{
    v.len() == 0 || (list_tag_safe(v.subrange(0, v.len() - 1)) && mv_tag_safe(v[v.len() - 1]))
}

/// A document whose metadata never collides with the tag shape.
pub open spec fn pandoc_tag_safe(d: PandocV) -> bool {
    !is_tag_shape(enc_metamap_obj(d.meta)->Obj_0) && entries_tag_safe(d.meta)
}

pub proof fn lemma_entries_tag_safe(m: Seq<(Seq<char>, MetaValueV)>)
    ensures
        entries_tag_safe(m) <==> forall|i: int| 0 <= i < m.len() ==> mv_tag_safe(
            #[trigger] m[i].1,
        ),
    decreases m.len(),
{
    if m.len() > 0 {
        let pre = m.subrange(0, m.len() - 1);
        lemma_entries_tag_safe(pre);
        assert(forall|i: int| 0 <= i < pre.len() ==> pre[i] == m[i]);
    }
}

pub proof fn lemma_list_tag_safe(v: Seq<MetaValueV>)
    ensures
        list_tag_safe(v) <==> forall|i: int| 0 <= i < v.len() ==> mv_tag_safe(#[trigger] v[i]),
    decreases v.len(),
{
    if v.len() > 0 {
        let pre = v.subrange(0, v.len() - 1);
        lemma_list_tag_safe(pre);
        assert(forall|i: int| 0 <= i < pre.len() ==> pre[i] == v[i]);
    }
}

/// Normalizing a tag wrapper rewrites it to the single-key object,
/// after normalizing the payload.
pub proof fn lemma_norm_wtag(name: Seq<char>, c: JsonV)
    ensures
        norm(wtag(name, c)) == (match norm(c) {
            Some(c2) => Some(JsonV::Obj(seq![(name, c2)])),
            None => None,
        }),
{
    reveal_strlit("t");
    reveal_strlit("c");
    let s = wtag(name, c)->Obj_0;
    assert(s.len() == 2);
    assert(s[0].0 == "t"@);
    assert(s[1].0 == "c"@);
    assert("t"@.len() == 1 && "t"@[0] == 't');
    assert("c"@.len() == 1 && "c"@[0] == 'c');
    assert("t"@ != "c"@);
    reveal_with_fuel(key_from, 3);
    assert(key_at(s, "t"@) == 0);
    assert(key_at(s, "c"@) == 1);
    assert(is_tag_shape(s));
}

/// The tag rewrite reads the wrapper by key, not by position: a
/// wrapper written with its two keys in the other order normalizes to
/// the same single-key object. Parsed input always arrives with sorted
/// keys (`"c"` before `"t"`), the encoder emits `"t"` first; both
/// orders are one wrapper to the rewrite.
pub proof fn lemma_norm_wtag_reversed(name: Seq<char>, c: JsonV)
    ensures
        norm(JsonV::Obj(seq![("c"@, c), ("t"@, JsonV::Str(name))])) == norm(wtag(name, c)),
{
    reveal_strlit("t");
    reveal_strlit("c");
    let s = seq![("c"@, c), ("t"@, JsonV::Str(name))];
    assert(s.len() == 2);
    assert(s[0].0 == "c"@);
    assert(s[1].0 == "t"@);
    assert("t"@.len() == 1 && "t"@[0] == 't');
    assert("c"@.len() == 1 && "c"@[0] == 'c');
    assert("t"@ != "c"@);
    reveal_with_fuel(key_from, 3);
    assert(key_at(s, "t"@) == 1);
    assert(key_at(s, "c"@) == 0);
    assert(is_tag_shape(s));
    lemma_norm_wtag(name, c);
}

/// The empty-array payload normalizes to itself.
pub proof fn lemma_norm_unit()
    ensures
        norm(unit_payload()) == Some(unit_payload()),
        unit_payload() matches JsonV::Arr(s) && s.len() == 0,
{
    assert(norm_seq(Seq::<JsonV>::empty()) == Some(Seq::<JsonV>::empty()));
}

/// An encoded string array holds no tag wrapper: it normalizes to
/// itself, and decodes back to the strings.
pub proof fn lemma_rt_strs(s: Seq<Seq<char>>)
    ensures
        norm(enc_str_arr(s)) == Some(enc_str_arr(s)),
        dec_strs(enc_str_arr(s)) == Some(s),
{
    let q = enc_str_arr(s)->Arr_0;
    lemma_norm_seq(q);
    assert(forall|i: int| 0 <= i < q.len() ==> (#[trigger] norm(q[i])) == Some(q[i]));
    if norm_seq(q) is None {
        assert(false);
    }
    let r0 = norm_seq(q).unwrap();
    assert forall|i: int| 0 <= i < q.len() implies r0[i] == q[i] by {
        assert(norm(q[i]) == Some(q[i]));
    }
    assert(r0 =~= q);
    lemma_dec_str_seq(q);
    assert(forall|i: int| 0 <= i < q.len() ==> (#[trigger] dec_str(q[i])) == Some(s[i]));
    if dec_str_seq(q) is None {
        assert(false);
    }
    let d0 = dec_str_seq(q).unwrap();
    assert forall|i: int| 0 <= i < q.len() implies d0[i] == s[i] by {
        assert(dec_str(q[i]) == Some(s[i]));
    }
    assert(d0 =~= s);
}

/// An encoded pair normalizes to itself and decodes back.
pub proof fn lemma_rt_pair(a: Seq<char>, b: Seq<char>)
    ensures
        norm(JsonV::Arr(seq![JsonV::Str(a), JsonV::Str(b)])) == Some(
            JsonV::Arr(seq![JsonV::Str(a), JsonV::Str(b)]),
        ),
        dec_pair(JsonV::Arr(seq![JsonV::Str(a), JsonV::Str(b)])) == Some((a, b)),
{
    let q = seq![JsonV::Str(a), JsonV::Str(b)];
    lemma_norm_seq(q);
    assert(forall|i: int| 0 <= i < q.len() ==> (#[trigger] norm(q[i])) == Some(q[i]));
    if norm_seq(q) is None {
        assert(false);
    }
    let r0 = norm_seq(q).unwrap();
    assert forall|i: int| 0 <= i < q.len() implies r0[i] == q[i] by {
        assert(norm(q[i]) == Some(q[i]));
    }
    assert(r0 =~= q);
}

/// An encoded key-value array normalizes to itself and decodes back.
pub proof fn lemma_rt_pairs(s: Seq<(Seq<char>, Seq<char>)>)
    ensures
        norm(enc_pair_arr(s)) == Some(enc_pair_arr(s)),
        dec_pairs(enc_pair_arr(s)) == Some(s),
{
    let q = enc_pair_arr(s)->Arr_0;
    assert forall|i: int| 0 <= i < q.len() implies (#[trigger] norm(q[i])) == Some(q[i])
        && dec_pair(q[i]) == Some(s[i]) by {
        lemma_rt_pair(s[i].0, s[i].1);
    }
    lemma_norm_seq(q);
    if norm_seq(q) is None {
        assert(false);
    }
    let r0 = norm_seq(q).unwrap();
    assert forall|i: int| 0 <= i < q.len() implies r0[i] == q[i] by {
        assert(norm(q[i]) == Some(q[i]));
    }
    assert(r0 =~= q);
    lemma_dec_pair_seq(q);
    if dec_pair_seq(q) is None {
        assert(false);
    }
    let d0 = dec_pair_seq(q).unwrap();
    assert forall|i: int| 0 <= i < q.len() implies d0[i] == s[i] by {
        assert(dec_pair(q[i]) == Some(s[i]));
    }
    assert(d0 =~= s);
}

/// Encoded attributes normalize to themselves and decode back.
pub proof fn lemma_rt_attr(a: AttrV)
    ensures
        norm(enc_attr(a)) == Some(enc_attr(a)),
        dec_attr(enc_attr(a)) == Some(a),
{
    let q = enc_attr(a)->Arr_0;
    lemma_rt_strs(a.1);
    lemma_rt_pairs(a.2);
    lemma_norm_seq(q);
    assert(forall|i: int| 0 <= i < q.len() ==> (#[trigger] norm(q[i])) == Some(q[i]));
    if norm_seq(q) is None {
        assert(false);
    }
    let r0 = norm_seq(q).unwrap();
    assert forall|i: int| 0 <= i < q.len() implies r0[i] == q[i] by {
        assert(norm(q[i]) == Some(q[i]));
    }
    assert(r0 =~= q);
}

/// An encoded target normalizes to itself and decodes back.
pub proof fn lemma_rt_target(t: TargetV)
    ensures
        norm(enc_target(t)) == Some(enc_target(t)),
        dec_target(enc_target(t)) == Some(t),
{
    lemma_rt_pair(t.0, t.1);
}

/// An encoded width array normalizes to itself and decodes back.
pub proof fn lemma_rt_nums(s: Seq<JNumV>)
    ensures
        norm(enc_num_arr(s)) == Some(enc_num_arr(s)),
        dec_nums(enc_num_arr(s)) == Some(s),
{
    let q = enc_num_arr(s)->Arr_0;
    lemma_norm_seq(q);
    assert(forall|i: int| 0 <= i < q.len() ==> (#[trigger] norm(q[i])) == Some(q[i]));
    if norm_seq(q) is None {
        assert(false);
    }
    let r0 = norm_seq(q).unwrap();
    assert forall|i: int| 0 <= i < q.len() implies r0[i] == q[i] by {
        assert(norm(q[i]) == Some(q[i]));
    }
    assert(r0 =~= q);
    lemma_dec_num_seq(q);
    assert(forall|i: int| 0 <= i < q.len() ==> (#[trigger] dec_num(q[i])) == Some(s[i]));
    if dec_num_seq(q) is None {
        assert(false);
    }
    let d0 = dec_num_seq(q).unwrap();
    assert forall|i: int| 0 <= i < q.len() implies d0[i] == s[i] by {
        assert(dec_num(q[i]) == Some(s[i]));
    }
    assert(d0 =~= s);
}

} // verus!

verus! {

/// A two-element array of normalizable values normalizes elementwise.
pub proof fn lemma_norm_two(a: JsonV, b: JsonV)
    requires
        norm(a) is Some,
        norm(b) is Some,
    ensures
        norm(JsonV::Arr(seq![a, b])) == Some(
            JsonV::Arr(seq![norm(a).unwrap(), norm(b).unwrap()]),
        ),
{
    let p = seq![a, b];
    lemma_norm_seq(p);
    assert(forall|i: int| 0 <= i < p.len() ==> (#[trigger] norm(p[i])) is Some);
    if norm_seq(p) is None {
        assert(false);
    }
    let r0 = norm_seq(p).unwrap();
    assert(norm(p[0]) == Some(r0[0]));
    assert(norm(p[1]) == Some(r0[1]));
    assert(r0 =~= seq![norm(a).unwrap(), norm(b).unwrap()]);
}

/// A three-element array of normalizable values normalizes elementwise.
pub proof fn lemma_norm_three(a: JsonV, b: JsonV, c: JsonV)
    requires
        norm(a) is Some,
        norm(b) is Some,
        norm(c) is Some,
    ensures
        norm(JsonV::Arr(seq![a, b, c])) == Some(
            JsonV::Arr(seq![norm(a).unwrap(), norm(b).unwrap(), norm(c).unwrap()]),
        ),
{
    let p = seq![a, b, c];
    lemma_norm_seq(p);
    assert(forall|i: int| 0 <= i < p.len() ==> (#[trigger] norm(p[i])) is Some);
    if norm_seq(p) is None {
        assert(false);
    }
    let r0 = norm_seq(p).unwrap();
    assert(norm(p[0]) == Some(r0[0]));
    assert(norm(p[1]) == Some(r0[1]));
    assert(norm(p[2]) == Some(r0[2]));
    assert(r0 =~= seq![norm(a).unwrap(), norm(b).unwrap(), norm(c).unwrap()]);
}

/// A five-element array of normalizable values normalizes elementwise.
pub proof fn lemma_norm_five(a: JsonV, b: JsonV, c: JsonV, d: JsonV, e: JsonV)
    requires
        norm(a) is Some,
        norm(b) is Some,
        norm(c) is Some,
        norm(d) is Some,
        norm(e) is Some,
    ensures
        norm(JsonV::Arr(seq![a, b, c, d, e])) == Some(
            JsonV::Arr(
                seq![
                    norm(a).unwrap(),
                    norm(b).unwrap(),
                    norm(c).unwrap(),
                    norm(d).unwrap(),
                    norm(e).unwrap(),
                ],
            ),
        ),
{
    let p = seq![a, b, c, d, e];
    lemma_norm_seq(p);
    assert(forall|i: int| 0 <= i < p.len() ==> (#[trigger] norm(p[i])) is Some);
    if norm_seq(p) is None {
        assert(false);
    }
    let r0 = norm_seq(p).unwrap();
    assert(norm(p[0]) == Some(r0[0]));
    assert(norm(p[1]) == Some(r0[1]));
    assert(norm(p[2]) == Some(r0[2]));
    assert(norm(p[3]) == Some(r0[3]));
    assert(norm(p[4]) == Some(r0[4]));
    assert(r0 =~= seq![
        norm(a).unwrap(),
        norm(b).unwrap(),
        norm(c).unwrap(),
        norm(d).unwrap(),
        norm(e).unwrap(),
    ]);
}

pub proof fn lemma_rt_alignment(x: Alignment)
    ensures
        norm(enc_alignment(x)) is Some,
        dec_alignment(norm(enc_alignment(x)).unwrap()) == Some(x),
{
    reveal_strlit("AlignLeft");
    reveal_strlit("AlignRight");
    reveal_strlit("AlignCenter");
    reveal_strlit("AlignDefault");
    assert("AlignLeft"@.len() == 9 && "AlignRight"@.len() == 10 && "AlignCenter"@.len() == 11
        && "AlignDefault"@.len() == 12);
    lemma_norm_unit();
    match x {
        Alignment::AlignLeft => lemma_norm_wtag("AlignLeft"@, unit_payload()),
        Alignment::AlignRight => lemma_norm_wtag("AlignRight"@, unit_payload()),
        Alignment::AlignCenter => lemma_norm_wtag("AlignCenter"@, unit_payload()),
        Alignment::AlignDefault => lemma_norm_wtag("AlignDefault"@, unit_payload()),
    }
}

pub proof fn lemma_rt_list_number_style(x: ListNumberStyle)
    ensures
        norm(enc_list_number_style(x)) is Some,
        dec_list_number_style(norm(enc_list_number_style(x)).unwrap()) == Some(x),
{
    reveal_strlit("DefaultStyle");
    reveal_strlit("Example");
    reveal_strlit("Decimal");
    reveal_strlit("LowerRoman");
    reveal_strlit("UpperRoman");
    reveal_strlit("LowerAlpha");
    reveal_strlit("UpperAlpha");
    assert("DefaultStyle"@.len() == 12 && "Example"@.len() == 7 && "Decimal"@.len() == 7
        && "LowerRoman"@.len() == 10 && "UpperRoman"@.len() == 10 && "LowerAlpha"@.len() == 10
        && "UpperAlpha"@.len() == 10);
    assert("Example"@[0] == 'E' && "Decimal"@[0] == 'D');
    assert("LowerRoman"@[0] == 'L' && "UpperRoman"@[0] == 'U' && "LowerAlpha"@[0] == 'L'
        && "UpperAlpha"@[0] == 'U');
    assert("LowerRoman"@[5] == 'R' && "UpperRoman"@[5] == 'R' && "LowerAlpha"@[5] == 'A'
        && "UpperAlpha"@[5] == 'A');
    lemma_norm_unit();
    match x {
        ListNumberStyle::DefaultStyle => lemma_norm_wtag("DefaultStyle"@, unit_payload()),
        ListNumberStyle::Example => lemma_norm_wtag("Example"@, unit_payload()),
        ListNumberStyle::Decimal => lemma_norm_wtag("Decimal"@, unit_payload()),
        ListNumberStyle::LowerRoman => lemma_norm_wtag("LowerRoman"@, unit_payload()),
        ListNumberStyle::UpperRoman => lemma_norm_wtag("UpperRoman"@, unit_payload()),
        ListNumberStyle::LowerAlpha => lemma_norm_wtag("LowerAlpha"@, unit_payload()),
        ListNumberStyle::UpperAlpha => lemma_norm_wtag("UpperAlpha"@, unit_payload()),
    }
}

pub proof fn lemma_rt_list_number_delim(x: ListNumberDelim)
    ensures
        norm(enc_list_number_delim(x)) is Some,
        dec_list_number_delim(norm(enc_list_number_delim(x)).unwrap()) == Some(x),
{
    reveal_strlit("DefaultDelim");
    reveal_strlit("Period");
    reveal_strlit("OneParen");
    reveal_strlit("TwoParens");
    assert("DefaultDelim"@.len() == 12 && "Period"@.len() == 6 && "OneParen"@.len() == 8
        && "TwoParens"@.len() == 9);
    lemma_norm_unit();
    match x {
        ListNumberDelim::DefaultDelim => lemma_norm_wtag("DefaultDelim"@, unit_payload()),
        ListNumberDelim::Period => lemma_norm_wtag("Period"@, unit_payload()),
        ListNumberDelim::OneParen => lemma_norm_wtag("OneParen"@, unit_payload()),
        ListNumberDelim::TwoParens => lemma_norm_wtag("TwoParens"@, unit_payload()),
    }
}

pub proof fn lemma_rt_quote_type(x: QuoteType)
    ensures
        norm(enc_quote_type(x)) is Some,
        dec_quote_type(norm(enc_quote_type(x)).unwrap()) == Some(x),
{
    reveal_strlit("SingleQuote");
    reveal_strlit("DoubleQuote");
    lemma_norm_unit();
    assert("SingleQuote"@[0] == 'S' && "DoubleQuote"@[0] == 'D');
    match x {
        QuoteType::SingleQuote => lemma_norm_wtag("SingleQuote"@, unit_payload()),
        QuoteType::DoubleQuote => lemma_norm_wtag("DoubleQuote"@, unit_payload()),
    }
}

pub proof fn lemma_rt_math_type(x: MathType)
    ensures
        norm(enc_math_type(x)) is Some,
        dec_math_type(norm(enc_math_type(x)).unwrap()) == Some(x),
{
    reveal_strlit("DisplayMath");
    reveal_strlit("InlineMath");
    assert("DisplayMath"@.len() == 11 && "InlineMath"@.len() == 10);
    lemma_norm_unit();
    match x {
        MathType::DisplayMath => lemma_norm_wtag("DisplayMath"@, unit_payload()),
        MathType::InlineMath => lemma_norm_wtag("InlineMath"@, unit_payload()),
    }
}

pub proof fn lemma_rt_citation_mode(x: CitationMode)
    ensures
        norm(enc_citation_mode(x)) is Some,
        dec_citation_mode(norm(enc_citation_mode(x)).unwrap()) == Some(x),
{
    reveal_strlit("AuthorInText");
    reveal_strlit("SuppressAuthor");
    reveal_strlit("NormalCitation");
    assert("AuthorInText"@.len() == 12 && "SuppressAuthor"@.len() == 14
        && "NormalCitation"@.len() == 14);
    assert("SuppressAuthor"@[0] == 'S' && "NormalCitation"@[0] == 'N');
    lemma_norm_unit();
    match x {
        CitationMode::AuthorInText => lemma_norm_wtag("AuthorInText"@, unit_payload()),
        CitationMode::SuppressAuthor => lemma_norm_wtag("SuppressAuthor"@, unit_payload()),
        CitationMode::NormalCitation => lemma_norm_wtag("NormalCitation"@, unit_payload()),
    }
}

pub proof fn lemma_rt_alignments(s: Seq<Alignment>)
    ensures
        norm(enc_alignment_arr(s)) is Some,
        dec_alignments(norm(enc_alignment_arr(s)).unwrap()) == Some(s),
{
    let q = enc_alignment_arr(s)->Arr_0;
    assert forall|i: int| 0 <= i < q.len() implies (#[trigger] norm(q[i])) is Some
        && dec_alignment(norm(q[i]).unwrap()) == Some(s[i]) by {
        lemma_rt_alignment(s[i]);
        assert(q[i] == enc_alignment(s[i]));
    }
    lemma_norm_seq(q);
    if norm_seq(q) is None {
        assert(false);
    }
    let r0 = norm_seq(q).unwrap();
    assert forall|i: int| 0 <= i < r0.len() implies (#[trigger] dec_alignment(r0[i])) == Some(
        s[i],
    ) by {
        assert(norm(q[i]) == Some(r0[i]));
    }
    lemma_dec_alignment_seq(r0);
    if dec_alignment_seq(r0) is None {
        let w = choose|k: int| 0 <= k < r0.len() && (#[trigger] dec_alignment(r0[k])) is None;
        assert(false);
    }
    let d0 = dec_alignment_seq(r0).unwrap();
    assert forall|i: int| 0 <= i < r0.len() implies d0[i] == s[i] by {
        assert(dec_alignment(r0[i]) == Some(d0[i]));
    }
    assert(d0 =~= s);
}

pub proof fn lemma_rt_list_attributes(la: ListAttributesV)
    ensures
        norm(enc_list_attributes(la)) is Some,
        dec_list_attributes(norm(enc_list_attributes(la)).unwrap()) == Some(la),
{
    lemma_rt_list_number_style(la.1);
    lemma_rt_list_number_delim(la.2);
    lemma_norm_three(
        JsonV::Num(JNumV::Int(la.0)),
        enc_list_number_style(la.1),
        enc_list_number_delim(la.2),
    );
}

} // verus!

verus! {
/// Every encoded inline sequence survives the round trip.

pub proof fn lemma_rt_inlines(s: Seq<InlineV>)
    ensures
        norm(enc_inline_arr(s)) is Some,
        dec_inlines(norm(enc_inline_arr(s)).unwrap()) == Some(s),
    decreases s,
{
    let q = enc_inline_arr(s)->Arr_0;
    assert forall|i: int| 0 <= i < q.len() implies (#[trigger] norm(q[i])) is Some
        && dec_inline(norm(q[i]).unwrap()) == Some(s[i]) by {
        lemma_rt_inline(s[i]);
        assert(q[i] == enc_inline(s[i]));
    }
    lemma_norm_seq(q);
    if norm_seq(q) is None {
        assert(false);
    }
    let r0 = norm_seq(q).unwrap();
    assert forall|i: int| 0 <= i < r0.len() implies (#[trigger] dec_inline(r0[i])) == Some(s[i]) by {
        assert(norm(q[i]) == Some(r0[i]));
    }
    lemma_dec_inline_seq(r0);
    if dec_inline_seq(r0) is None {
        let w = choose|k: int| 0 <= k < r0.len() && (#[trigger] dec_inline(r0[k])) is None;
        assert(false);
    }
    let d0 = dec_inline_seq(r0).unwrap();
    assert forall|i: int| 0 <= i < r0.len() implies d0[i] == s[i] by {
        assert(dec_inline(r0[i]) == Some(d0[i]));
    }
    assert(d0 =~= s);
}
/// Every encoded citation sequence survives the round trip.

pub proof fn lemma_rt_citations(s: Seq<CitationV>)
    ensures
        norm(enc_citation_arr(s)) is Some,
        dec_citations(norm(enc_citation_arr(s)).unwrap()) == Some(s),
    decreases s,
{
    let q = enc_citation_arr(s)->Arr_0;
    assert forall|i: int| 0 <= i < q.len() implies (#[trigger] norm(q[i])) is Some
        && dec_citation(norm(q[i]).unwrap()) == Some(s[i]) by {
        lemma_rt_citation(s[i]);
        assert(q[i] == enc_citation(s[i]));
    }
    lemma_norm_seq(q);
    if norm_seq(q) is None {
        assert(false);
    }
    let r0 = norm_seq(q).unwrap();
    assert forall|i: int| 0 <= i < r0.len() implies (#[trigger] dec_citation(r0[i])) == Some(s[i]) by {
        assert(norm(q[i]) == Some(r0[i]));
    }
    lemma_dec_citation_seq(r0);
    if dec_citation_seq(r0) is None {
        let w = choose|k: int| 0 <= k < r0.len() && (#[trigger] dec_citation(r0[k])) is None;
        assert(false);
    }
    let d0 = dec_citation_seq(r0).unwrap();
    assert forall|i: int| 0 <= i < r0.len() implies d0[i] == s[i] by {
        assert(dec_citation(r0[i]) == Some(d0[i]));
    }
    assert(d0 =~= s);
}
/// Every encoded block sequence survives the round trip.

pub proof fn lemma_rt_blocks(s: Seq<BlockV>)
    ensures
        norm(enc_block_arr(s)) is Some,
        dec_blocks(norm(enc_block_arr(s)).unwrap()) == Some(s),
    decreases s,
{
    let q = enc_block_arr(s)->Arr_0;
    assert forall|i: int| 0 <= i < q.len() implies (#[trigger] norm(q[i])) is Some
        && dec_block(norm(q[i]).unwrap()) == Some(s[i]) by {
        lemma_rt_block(s[i]);
        assert(q[i] == enc_block(s[i]));
    }
    lemma_norm_seq(q);
    if norm_seq(q) is None {
        assert(false);
    }
    let r0 = norm_seq(q).unwrap();
    assert forall|i: int| 0 <= i < r0.len() implies (#[trigger] dec_block(r0[i])) == Some(s[i]) by {
        assert(norm(q[i]) == Some(r0[i]));
    }
    lemma_dec_block_seq(r0);
    if dec_block_seq(r0) is None {
        let w = choose|k: int| 0 <= k < r0.len() && (#[trigger] dec_block(r0[k])) is None;
        assert(false);
    }
    let d0 = dec_block_seq(r0).unwrap();
    assert forall|i: int| 0 <= i < r0.len() implies d0[i] == s[i] by {
        assert(dec_block(r0[i]) == Some(d0[i]));
    }
    assert(d0 =~= s);
}
/// Every encoded item list (lists of blocks) survives the round trip.

pub proof fn lemma_rt_items(s: Seq<Seq<BlockV>>)
    ensures
        norm(enc_items_arr(s)) is Some,
        dec_items(norm(enc_items_arr(s)).unwrap()) == Some(s),
    decreases s,
{
    let q = enc_items_arr(s)->Arr_0;
    assert forall|i: int| 0 <= i < q.len() implies (#[trigger] norm(q[i])) is Some
        && dec_blocks(norm(q[i]).unwrap()) == Some(s[i]) by {
        lemma_rt_blocks(s[i]);
        assert(q[i] == enc_block_arr(s[i]));
    }
    lemma_norm_seq(q);
    if norm_seq(q) is None {
        assert(false);
    }
    let r0 = norm_seq(q).unwrap();
    assert forall|i: int| 0 <= i < r0.len() implies (#[trigger] dec_blocks(r0[i])) == Some(s[i]) by {
        assert(norm(q[i]) == Some(r0[i]));
    }
    lemma_dec_item_seq(r0);
    if dec_item_seq(r0) is None {
        let w = choose|k: int| 0 <= k < r0.len() && (#[trigger] dec_blocks(r0[k])) is None;
        assert(false);
    }
    let d0 = dec_item_seq(r0).unwrap();
    assert forall|i: int| 0 <= i < r0.len() implies d0[i] == s[i] by {
        assert(dec_blocks(r0[i]) == Some(d0[i]));
    }
    assert(d0 =~= s);
}
/// Every encoded table-row list survives the round trip.

pub proof fn lemma_rt_rows(s: Seq<Seq<Seq<BlockV>>>)
    ensures
        norm(enc_row_arr(s)) is Some,
        dec_rows(norm(enc_row_arr(s)).unwrap()) == Some(s),
    decreases s,
{
    let q = enc_row_arr(s)->Arr_0;
    assert forall|i: int| 0 <= i < q.len() implies (#[trigger] norm(q[i])) is Some
        && dec_items(norm(q[i]).unwrap()) == Some(s[i]) by {
        lemma_rt_items(s[i]);
        assert(q[i] == enc_items_arr(s[i]));
    }
    lemma_norm_seq(q);
    if norm_seq(q) is None {
        assert(false);
    }
    let r0 = norm_seq(q).unwrap();
    assert forall|i: int| 0 <= i < r0.len() implies (#[trigger] dec_items(r0[i])) == Some(s[i]) by {
        assert(norm(q[i]) == Some(r0[i]));
    }
    lemma_dec_row_seq(r0);
    if dec_row_seq(r0) is None {
        let w = choose|k: int| 0 <= k < r0.len() && (#[trigger] dec_items(r0[k])) is None;
        assert(false);
    }
    let d0 = dec_row_seq(r0).unwrap();
    assert forall|i: int| 0 <= i < r0.len() implies d0[i] == s[i] by {
        assert(dec_items(r0[i]) == Some(d0[i]));
    }
    assert(d0 =~= s);
}
/// Every encoded definition list survives the round trip.

pub proof fn lemma_rt_defs(s: Seq<(Seq<InlineV>, Seq<Seq<BlockV>>)>)
    ensures
        norm(enc_def_arr(s)) is Some,
        dec_defs(norm(enc_def_arr(s)).unwrap()) == Some(s),
    decreases s,
{
    let q = enc_def_arr(s)->Arr_0;
    assert forall|i: int| 0 <= i < q.len() implies (#[trigger] norm(q[i])) is Some
        && dec_def(norm(q[i]).unwrap()) == Some(s[i]) by {
        lemma_rt_def(s[i]);
        assert(q[i] == JsonV::Arr(seq![enc_inline_arr(s[i].0), enc_items_arr(s[i].1)]));
    }
    lemma_norm_seq(q);
    if norm_seq(q) is None {
        assert(false);
    }
    let r0 = norm_seq(q).unwrap();
    assert forall|i: int| 0 <= i < r0.len() implies (#[trigger] dec_def(r0[i])) == Some(s[i]) by {
        assert(norm(q[i]) == Some(r0[i]));
    }
    lemma_dec_def_seq(r0);
    if dec_def_seq(r0) is None {
        let w = choose|k: int| 0 <= k < r0.len() && (#[trigger] dec_def(r0[k])) is None;
        assert(false);
    }
    let d0 = dec_def_seq(r0).unwrap();
    assert forall|i: int| 0 <= i < r0.len() implies d0[i] == s[i] by {
        assert(dec_def(r0[i]) == Some(d0[i]));
    }
    assert(d0 =~= s);
}
/// Every encoded metadata list of tag-safe values survives the round trip.

pub proof fn lemma_rt_metalist(s: Seq<MetaValueV>)
    requires
        list_tag_safe(s),
    ensures
        norm(enc_metavalue_arr(s)) is Some,
        dec_mvs(norm(enc_metavalue_arr(s)).unwrap()) == Some(s),
    decreases s,
{
    lemma_list_tag_safe(s);
    let q = enc_metavalue_arr(s)->Arr_0;
    assert forall|i: int| 0 <= i < q.len() implies (#[trigger] norm(q[i])) is Some
        && dec_metavalue(norm(q[i]).unwrap()) == Some(s[i]) by {
        lemma_rt_metavalue(s[i]);
        assert(q[i] == enc_metavalue(s[i]));
    }
    lemma_norm_seq(q);
    if norm_seq(q) is None {
        assert(false);
    }
    let r0 = norm_seq(q).unwrap();
    assert forall|i: int| 0 <= i < r0.len() implies (#[trigger] dec_metavalue(r0[i])) == Some(s[i]) by {
        assert(norm(q[i]) == Some(r0[i]));
    }
    lemma_dec_metavalue_seq(r0);
    if dec_metavalue_seq(r0) is None {
        let w = choose|k: int| 0 <= k < r0.len() && (#[trigger] dec_metavalue(r0[k])) is None;
        assert(false);
    }
    let d0 = dec_metavalue_seq(r0).unwrap();
    assert forall|i: int| 0 <= i < r0.len() implies d0[i] == s[i] by {
        assert(dec_metavalue(r0[i]) == Some(d0[i]));
    }
    assert(d0 =~= s);
}

} // verus!

verus! {

/// One definition item survives the round trip.
pub proof fn lemma_rt_def(x: (Seq<InlineV>, Seq<Seq<BlockV>>))
    ensures
        norm(JsonV::Arr(seq![enc_inline_arr(x.0), enc_items_arr(x.1)])) is Some,
        dec_def(norm(JsonV::Arr(seq![enc_inline_arr(x.0), enc_items_arr(x.1)])).unwrap()) == Some(
            x,
        ),
    decreases x,
{
    lemma_rt_inlines(x.0);
    lemma_rt_items(x.1);
    lemma_norm_two(enc_inline_arr(x.0), enc_items_arr(x.1));
    assert((x.0, x.1) == x);
}

/// An encoded citation survives the round trip.
pub proof fn lemma_rt_citation(c: CitationV)
    ensures
        norm(enc_citation(c)) is Some,
        dec_citation(norm(enc_citation(c)).unwrap()) == Some(c),
    decreases c,
{
    reveal_strlit("citationId");
    reveal_strlit("citationPrefix");
    reveal_strlit("citationSuffix");
    reveal_strlit("citationMode");
    reveal_strlit("citationNoteNum");
    reveal_strlit("citationHash");
    assert("citationId"@.len() == 10 && "citationPrefix"@.len() == 14 && "citationSuffix"@.len()
        == 14 && "citationMode"@.len() == 12 && "citationNoteNum"@.len() == 15
        && "citationHash"@.len() == 12);
    assert("citationPrefix"@[8] == 'P' && "citationSuffix"@[8] == 'S' && "citationMode"@[8] == 'M'
        && "citationHash"@[8] == 'H');
    lemma_rt_inlines(c.prefix);
    lemma_rt_inlines(c.suffix);
    lemma_rt_citation_mode(c.mode);
    let e = enc_citation(c)->Obj_0;
    assert(e.len() == 6);
    assert(norm(e[0].1) is Some);
    assert(norm(e[1].1) is Some);
    assert(norm(e[2].1) is Some);
    assert(norm(e[3].1) is Some);
    assert(norm(e[4].1) is Some);
    assert(norm(e[5].1) is Some);
    lemma_norm_entries(e);
    if norm_entries(e) is None {
        let w = choose|k: int| 0 <= k < e.len() && (#[trigger] norm(e[k].1)) is None;
        assert(false);
    }
    let r0 = norm_entries(e).unwrap();
    assert(norm(e[0].1) == Some(r0[0].1));
    assert(norm(e[1].1) == Some(r0[1].1));
    assert(norm(e[2].1) == Some(r0[2].1));
    assert(norm(e[3].1) == Some(r0[3].1));
    assert(norm(e[4].1) == Some(r0[4].1));
    assert(norm(e[5].1) == Some(r0[5].1));
    assert(!is_tag_shape(e));
    assert(norm(enc_citation(c)) == Some(JsonV::Obj(r0)));
    reveal_with_fuel(key_from, 8);
    assert(r0[0].0 == "citationId"@);
    assert(r0[1].0 == "citationPrefix"@);
    assert(r0[2].0 == "citationSuffix"@);
    assert(r0[3].0 == "citationMode"@);
    assert(r0[4].0 == "citationNoteNum"@);
    assert(r0[5].0 == "citationHash"@);
    assert(key_at(r0, "citationId"@) == 0);
    assert(key_at(r0, "citationPrefix"@) == 1);
    assert(key_at(r0, "citationSuffix"@) == 2);
    assert(key_at(r0, "citationMode"@) == 3);
    assert(key_at(r0, "citationNoteNum"@) == 4);
    assert(key_at(r0, "citationHash"@) == 5);
    let c2 = dec_citation(JsonV::Obj(r0));
    assert(c2 == Some(c));
}

/// An encoded inline survives the round trip: normalizing its tagged
/// encoding succeeds and decoding gives the inline back.
pub proof fn lemma_rt_inline(x: InlineV)
    ensures
        norm(enc_inline(x)) is Some,
        dec_inline(norm(enc_inline(x)).unwrap()) == Some(x),
    decreases x,
{
    reveal_strlit("Str");
    reveal_strlit("Emph");
    reveal_strlit("Strong");
    reveal_strlit("Strikeout");
    reveal_strlit("Superscript");
    reveal_strlit("Subscript");
    reveal_strlit("SmallCaps");
    reveal_strlit("Quoted");
    reveal_strlit("Cite");
    reveal_strlit("Code");
    reveal_strlit("Space");
    reveal_strlit("LineBreak");
    reveal_strlit("Math");
    reveal_strlit("RawInline");
    reveal_strlit("Link");
    reveal_strlit("Image");
    reveal_strlit("Note");
    reveal_strlit("Span");
    assert("Str"@.len() == 3 && "Emph"@.len() == 4 && "Strong"@.len() == 6 && "Strikeout"@.len()
        == 9 && "Superscript"@.len() == 11 && "Subscript"@.len() == 9 && "SmallCaps"@.len() == 9
        && "Quoted"@.len() == 6 && "Cite"@.len() == 4 && "Code"@.len() == 4 && "Space"@.len() == 5
        && "LineBreak"@.len() == 9 && "Math"@.len() == 4 && "RawInline"@.len() == 9
        && "Link"@.len() == 4 && "Image"@.len() == 5 && "Note"@.len() == 4 && "Span"@.len() == 4);
    assert("Emph"@[0] == 'E' && "Cite"@[0] == 'C' && "Code"@[0] == 'C' && "Math"@[0] == 'M'
        && "Link"@[0] == 'L' && "Note"@[0] == 'N' && "Span"@[0] == 'S' && "Space"@[0] == 'S'
        && "Image"@[0] == 'I' && "Strong"@[0] == 'S' && "Quoted"@[0] == 'Q');
    assert("Cite"@[1] == 'i' && "Code"@[1] == 'o');
    assert("Strikeout"@[0] == 'S' && "Subscript"@[0] == 'S' && "SmallCaps"@[0] == 'S'
        && "LineBreak"@[0] == 'L' && "RawInline"@[0] == 'R');
    assert("Strikeout"@[1] == 't' && "Subscript"@[1] == 'u' && "SmallCaps"@[1] == 'm');
    match x {
        InlineV::Str(s) => {
            lemma_norm_wtag("Str"@, JsonV::Str(s));
        },
        InlineV::Emph(v) => {
            lemma_rt_inlines(v);
            lemma_norm_wtag("Emph"@, enc_inline_arr(v));
        },
        InlineV::Strong(v) => {
            lemma_rt_inlines(v);
            lemma_norm_wtag("Strong"@, enc_inline_arr(v));
        },
        InlineV::Strikeout(v) => {
            lemma_rt_inlines(v);
            lemma_norm_wtag("Strikeout"@, enc_inline_arr(v));
        },
        InlineV::Superscript(v) => {
            lemma_rt_inlines(v);
            lemma_norm_wtag("Superscript"@, enc_inline_arr(v));
        },
        InlineV::Subscript(v) => {
            lemma_rt_inlines(v);
            lemma_norm_wtag("Subscript"@, enc_inline_arr(v));
        },
        InlineV::SmallCaps(v) => {
            lemma_rt_inlines(v);
            lemma_norm_wtag("SmallCaps"@, enc_inline_arr(v));
        },
        InlineV::Quoted(q, v) => {
            lemma_rt_quote_type(q);
            lemma_rt_inlines(v);
            lemma_norm_two(enc_quote_type(q), enc_inline_arr(v));
            lemma_norm_wtag("Quoted"@, JsonV::Arr(seq![enc_quote_type(q), enc_inline_arr(v)]));
        },
        InlineV::Cite(cs, v) => {
            lemma_rt_citations(cs);
            lemma_rt_inlines(v);
            lemma_norm_two(enc_citation_arr(cs), enc_inline_arr(v));
            lemma_norm_wtag("Cite"@, JsonV::Arr(seq![enc_citation_arr(cs), enc_inline_arr(v)]));
        },
        InlineV::Code(a, s) => {
            lemma_rt_attr(a);
            lemma_norm_two(enc_attr(a), JsonV::Str(s));
            lemma_norm_wtag("Code"@, JsonV::Arr(seq![enc_attr(a), JsonV::Str(s)]));
        },
        InlineV::Space => {
            lemma_norm_unit();
            lemma_norm_wtag("Space"@, unit_payload());
        },
        InlineV::LineBreak => {
            lemma_norm_unit();
            lemma_norm_wtag("LineBreak"@, unit_payload());
        },
        InlineV::Math(m, s) => {
            lemma_rt_math_type(m);
            lemma_norm_two(enc_math_type(m), JsonV::Str(s));
            lemma_norm_wtag("Math"@, JsonV::Arr(seq![enc_math_type(m), JsonV::Str(s)]));
        },
        InlineV::RawInline(f, s) => {
            lemma_norm_two(JsonV::Str(f), JsonV::Str(s));
            lemma_norm_wtag("RawInline"@, JsonV::Arr(seq![JsonV::Str(f), JsonV::Str(s)]));
        },
        InlineV::Link(v, t) => {
            lemma_rt_inlines(v);
            lemma_rt_target(t);
            lemma_norm_two(enc_inline_arr(v), enc_target(t));
            lemma_norm_wtag("Link"@, JsonV::Arr(seq![enc_inline_arr(v), enc_target(t)]));
        },
        InlineV::Image(v, t) => {
            lemma_rt_inlines(v);
            lemma_rt_target(t);
            lemma_norm_two(enc_inline_arr(v), enc_target(t));
            lemma_norm_wtag("Image"@, JsonV::Arr(seq![enc_inline_arr(v), enc_target(t)]));
        },
        InlineV::Note(bs) => {
            lemma_rt_blocks(bs);
            lemma_norm_wtag("Note"@, enc_block_arr(bs));
        },
        InlineV::Span(a, v) => {
            lemma_rt_attr(a);
            lemma_rt_inlines(v);
            lemma_norm_two(enc_attr(a), enc_inline_arr(v));
            lemma_norm_wtag("Span"@, JsonV::Arr(seq![enc_attr(a), enc_inline_arr(v)]));
        },
    }
}

/// An encoded block survives the round trip.
#[verifier::rlimit(60)]
pub proof fn lemma_rt_block(x: BlockV)
    ensures
        norm(enc_block(x)) is Some,
        dec_block(norm(enc_block(x)).unwrap()) == Some(x),
    decreases x,
{
    reveal_strlit("Plain");
    reveal_strlit("Para");
    reveal_strlit("CodeBlock");
    reveal_strlit("RawBlock");
    reveal_strlit("BlockQuote");
    reveal_strlit("OrderedList");
    reveal_strlit("BulletList");
    reveal_strlit("DefinitionList");
    reveal_strlit("Header");
    reveal_strlit("HorizontalRule");
    reveal_strlit("Table");
    reveal_strlit("Div");
    reveal_strlit("Null");
    assert("Plain"@.len() == 5 && "Para"@.len() == 4 && "CodeBlock"@.len() == 9
        && "RawBlock"@.len() == 8 && "BlockQuote"@.len() == 10 && "OrderedList"@.len() == 11
        && "BulletList"@.len() == 10 && "DefinitionList"@.len() == 14 && "Header"@.len() == 6
        && "HorizontalRule"@.len() == 14 && "Table"@.len() == 5 && "Div"@.len() == 3
        && "Null"@.len() == 4);
    assert("Plain"@[0] == 'P' && "Para"@[0] == 'P' && "Table"@[0] == 'T' && "Null"@[0] == 'N'
        && "DefinitionList"@[0] == 'D' && "HorizontalRule"@[0] == 'H');
    assert("Para"@[1] == 'a' && "Null"@[1] == 'u' && "Plain"@[1] == 'l' && "Table"@[1] == 'a');
    assert("BlockQuote"@[1] == 'l' && "BulletList"@[1] == 'u');
    match x {
        BlockV::Plain(v) => {
            lemma_rt_inlines(v);
            lemma_norm_wtag("Plain"@, enc_inline_arr(v));
        },
        BlockV::Para(v) => {
            lemma_rt_inlines(v);
            lemma_norm_wtag("Para"@, enc_inline_arr(v));
        },
        BlockV::CodeBlock(a, s) => {
            lemma_rt_attr(a);
            lemma_norm_two(enc_attr(a), JsonV::Str(s));
            lemma_norm_wtag("CodeBlock"@, JsonV::Arr(seq![enc_attr(a), JsonV::Str(s)]));
        },
        BlockV::RawBlock(f, s) => {
            lemma_norm_two(JsonV::Str(f), JsonV::Str(s));
            lemma_norm_wtag("RawBlock"@, JsonV::Arr(seq![JsonV::Str(f), JsonV::Str(s)]));
        },
        BlockV::BlockQuote(v) => {
            lemma_rt_blocks(v);
            lemma_norm_wtag("BlockQuote"@, enc_block_arr(v));
        },
        BlockV::OrderedList(la, items) => {
            lemma_rt_list_attributes(la);
            lemma_rt_items(items);
            lemma_norm_two(enc_list_attributes(la), enc_items_arr(items));
            lemma_norm_wtag(
                "OrderedList"@,
                JsonV::Arr(seq![enc_list_attributes(la), enc_items_arr(items)]),
            );
        },
        BlockV::BulletList(items) => {
            lemma_rt_items(items);
            lemma_norm_wtag("BulletList"@, enc_items_arr(items));
        },
        BlockV::DefinitionList(defs) => {
            lemma_rt_defs(defs);
            lemma_norm_wtag("DefinitionList"@, enc_def_arr(defs));
        },
        BlockV::Header(n, a, v) => {
            lemma_rt_attr(a);
            lemma_rt_inlines(v);
            lemma_norm_three(JsonV::Num(JNumV::Int(n)), enc_attr(a), enc_inline_arr(v));
            lemma_norm_wtag(
                "Header"@,
                JsonV::Arr(seq![JsonV::Num(JNumV::Int(n)), enc_attr(a), enc_inline_arr(v)]),
            );
        },
        BlockV::HorizontalRule => {
            lemma_norm_unit();
            lemma_norm_wtag("HorizontalRule"@, unit_payload());
        },
        BlockV::Table(cap, al, w, hd, rows) => {
            lemma_rt_inlines(cap);
            lemma_rt_alignments(al);
            lemma_rt_nums(w);
            lemma_rt_items(hd);
            lemma_rt_rows(rows);
            lemma_norm_five(
                enc_inline_arr(cap),
                enc_alignment_arr(al),
                enc_num_arr(w),
                enc_items_arr(hd),
                enc_row_arr(rows),
            );
            lemma_norm_wtag(
                "Table"@,
                JsonV::Arr(
                    seq![
                        enc_inline_arr(cap),
                        enc_alignment_arr(al),
                        enc_num_arr(w),
                        enc_items_arr(hd),
                        enc_row_arr(rows),
                    ],
                ),
            );
        },
        BlockV::Div(a, v) => {
            lemma_rt_attr(a);
            lemma_rt_blocks(v);
            lemma_norm_two(enc_attr(a), enc_block_arr(v));
            lemma_norm_wtag("Div"@, JsonV::Arr(seq![enc_attr(a), enc_block_arr(v)]));
        },
        BlockV::Null => {
            lemma_norm_unit();
            lemma_norm_wtag("Null"@, unit_payload());
        },
    }
}

/// An encoded tag-safe metadata map survives the round trip.
pub proof fn lemma_rt_metamap(m: Seq<(Seq<char>, MetaValueV)>)
    requires
        !is_tag_shape(enc_metamap_obj(m)->Obj_0),
        entries_tag_safe(m),
    ensures
        norm(enc_metamap_obj(m)) is Some,
        dec_mvmap(norm(enc_metamap_obj(m)).unwrap()) == Some(m),
    decreases m,
{
    lemma_entries_tag_safe(m);
    let e = enc_metamap_obj(m)->Obj_0;
    assert forall|i: int| 0 <= i < e.len() implies (#[trigger] norm(e[i].1)) is Some
        && dec_metavalue(norm(e[i].1).unwrap()) == Some(m[i].1) by {
        lemma_rt_metavalue(m[i].1);
        assert(e[i] == (m[i].0, enc_metavalue(m[i].1)));
    }
    lemma_norm_entries(e);
    if norm_entries(e) is None {
        let w = choose|k: int| 0 <= k < e.len() && (#[trigger] norm(e[k].1)) is None;
        assert(false);
    }
    let r0 = norm_entries(e).unwrap();
    assert forall|i: int| 0 <= i < r0.len() implies r0[i].0 == m[i].0 && (#[trigger] dec_metavalue(
        r0[i].1,
    )) == Some(m[i].1) by {
        assert(norm(e[i].1) == Some(r0[i].1));
        assert(e[i].0 == m[i].0);
    }
    lemma_dec_entry_seq(r0);
    if dec_entry_seq(r0) is None {
        let w = choose|k: int| 0 <= k < r0.len() && (#[trigger] dec_metavalue(r0[k].1)) is None;
        assert(false);
    }
    let d0 = dec_entry_seq(r0).unwrap();
    assert forall|i: int| 0 <= i < r0.len() implies d0[i] == m[i] by {
        assert(dec_metavalue(r0[i].1) == Some(d0[i].1));
        assert(d0[i].0 == r0[i].0);
        assert((d0[i].0, d0[i].1) == d0[i]);
        assert((m[i].0, m[i].1) == m[i]);
    }
    assert(d0 =~= m);
}

/// An encoded tag-safe metadata value survives the round trip.
pub proof fn lemma_rt_metavalue(x: MetaValueV)
    requires
        mv_tag_safe(x),
    ensures
        norm(enc_metavalue(x)) is Some,
        dec_metavalue(norm(enc_metavalue(x)).unwrap()) == Some(x),
    decreases x,
{
    reveal_strlit("MetaMap");
    reveal_strlit("MetaList");
    reveal_strlit("MetaBool");
    reveal_strlit("MetaString");
    reveal_strlit("MetaInlines");
    reveal_strlit("MetaBlocks");
    assert("MetaMap"@.len() == 7 && "MetaList"@.len() == 8 && "MetaBool"@.len() == 8
        && "MetaString"@.len() == 10 && "MetaInlines"@.len() == 11 && "MetaBlocks"@.len() == 10);
    assert("MetaList"@[4] == 'L' && "MetaBool"@[4] == 'B' && "MetaString"@[4] == 'S'
        && "MetaBlocks"@[4] == 'B');
    match x {
        MetaValueV::MetaMap(m) => {
            lemma_rt_metamap(m);
            lemma_norm_wtag("MetaMap"@, enc_metamap_obj(m));
        },
        MetaValueV::MetaList(v) => {
            lemma_rt_metalist(v);
            lemma_norm_wtag("MetaList"@, enc_metavalue_arr(v));
        },
        MetaValueV::MetaBool(b) => {
            lemma_norm_wtag("MetaBool"@, JsonV::Bool(b));
        },
        MetaValueV::MetaString(s) => {
            lemma_norm_wtag("MetaString"@, JsonV::Str(s));
        },
        MetaValueV::MetaInlines(v) => {
            lemma_rt_inlines(v);
            lemma_norm_wtag("MetaInlines"@, enc_inline_arr(v));
        },
        MetaValueV::MetaBlocks(v) => {
            lemma_rt_blocks(v);
            lemma_norm_wtag("MetaBlocks"@, enc_block_arr(v));
        },
    }
}

/// An encoded tag-safe metadata record survives the round trip.
pub proof fn lemma_rt_meta(m: Seq<(Seq<char>, MetaValueV)>)
    requires
        !is_tag_shape(enc_metamap_obj(m)->Obj_0),
        entries_tag_safe(m),
    ensures
        norm(enc_meta(m)) is Some,
        dec_meta(norm(enc_meta(m)).unwrap()) == Some(m),
{
    lemma_rt_metamap(m);
    let e = enc_meta(m)->Obj_0;
    assert(e.len() == 1);
    assert(e[0] == ("unMeta"@, enc_metamap_obj(m)));
    assert(norm(e[0].1) is Some);
    lemma_norm_entries(e);
    if norm_entries(e) is None {
        let w = choose|k: int| 0 <= k < e.len() && (#[trigger] norm(e[k].1)) is None;
        assert(false);
    }
    let r0 = norm_entries(e).unwrap();
    assert(r0[0].0 == "unMeta"@ && norm(e[0].1) == Some(r0[0].1));
    assert(!is_tag_shape(e));
    assert(norm(enc_meta(m)) == Some(JsonV::Obj(r0)));
    assert(dec_mvmap(r0[0].1) == Some(m));
}

/// Round trip: for every tag-safe document, normalizing the encoding
/// succeeds and the typed decoder gives the document back. The
/// tag-safety side condition is needed because a metadata map with
/// exactly the keys `"t"` and `"c"` encodes to the tag-wrapper shape
/// and is rejected on the way back, never silently misread.
pub proof fn law_round_trip_document(d: PandocV)
    requires
        pandoc_tag_safe(d),
    ensures
        norm(enc_pandoc(d)) is Some,
        dec_pandoc(norm(enc_pandoc(d)).unwrap()) == Some(d),
{
    lemma_rt_meta(d.meta);
    lemma_rt_blocks(d.blocks);
    lemma_norm_two(enc_meta(d.meta), enc_block_arr(d.blocks));
    let nd = norm(enc_pandoc(d)).unwrap();
    assert(dec_pandoc(nd) == Some(PandocV { meta: d.meta, blocks: d.blocks }));
    assert(PandocV { meta: d.meta, blocks: d.blocks } == d);
}

/// Round trip of the wire format: every external document in the image
/// of the encoder (the well-formed documents, for a tag-safe model
/// value) decodes, and re-encoding the decoded document gives back the
/// same JSON value.
pub proof fn law_wire_round_trip(d: PandocV, j: JsonV)
    requires
        pandoc_tag_safe(d),
        j == enc_pandoc(d),
    ensures
        norm(j) is Some,
        dec_pandoc(norm(j).unwrap()) is Some,
        enc_pandoc(dec_pandoc(norm(j).unwrap()).unwrap()) == j,
{
    law_round_trip_document(d);
}

} // verus!
