//! The encoder: document-model values to external tagged JSON. Every
//! tagged-union value becomes `{"t": name, "c": payload}`; a zero-field
//! variant carries an empty array, a one-field variant carries the
//! field's value, a variant of two or more fields carries the ordered
//! array of its fields. Records and tuples keep their natural JSON
//! shape: objects for keyed records, arrays for tuples and sequences.

use vstd::prelude::*;

use crate::json::JNumV;
use crate::json::Json;
use crate::json::JsonV;
use crate::json::entries_view;
use crate::json::jsons_view;
use crate::model::Alignment;
use crate::model::Attr;
use crate::model::AttrV;
use crate::model::Block;
use crate::model::BlockV;
use crate::model::Citation;
use crate::model::CitationMode;
use crate::model::CitationV;
use crate::model::Inline;
use crate::model::InlineV;
use crate::model::ListAttributes;
use crate::model::ListAttributesV;
use crate::model::ListNumberDelim;
use crate::model::ListNumberStyle;
use crate::model::MathType;
use crate::model::Meta;
use crate::model::MetaValue;
use crate::model::MetaValueV;
use crate::model::Pandoc;
use crate::model::PandocV;
use crate::model::QuoteType;
use crate::model::TableCell;
use crate::model::Target;
use crate::model::TargetV;
use crate::model::attr_view;
use crate::model::blocks_view;
use crate::model::citations_view;
use crate::model::defs_view;
use crate::model::inlines_view;
use crate::model::items_view;
use crate::model::metalist_view;
use crate::model::metamap_view;
use crate::model::nums_view;
use crate::model::pairs_view;
use crate::model::rows_view;
use crate::model::strings_view;
use crate::model::target_view;
use crate::json::JNum;

verus! {

/// The external form of a tagged value: `{"t": name, "c": c}`.
pub open spec fn wtag(name: Seq<char>, c: JsonV) -> JsonV {
    JsonV::Obj(seq![("t"@, JsonV::Str(name)), ("c"@, c)])
}

/// The payload of a zero-field variant: an empty array.
pub open spec fn unit_payload() -> JsonV {
    JsonV::Arr(Seq::empty())
}

pub open spec fn enc_alignment(x: Alignment) -> JsonV {
    match x {
        Alignment::AlignLeft => wtag("AlignLeft"@, unit_payload()),
        Alignment::AlignRight => wtag("AlignRight"@, unit_payload()),
        Alignment::AlignCenter => wtag("AlignCenter"@, unit_payload()),
        Alignment::AlignDefault => wtag("AlignDefault"@, unit_payload()),
    }
}

pub open spec fn enc_list_number_style(x: ListNumberStyle) -> JsonV {
    match x {
        ListNumberStyle::DefaultStyle => wtag("DefaultStyle"@, unit_payload()),
        ListNumberStyle::Example => wtag("Example"@, unit_payload()),
        ListNumberStyle::Decimal => wtag("Decimal"@, unit_payload()),
        ListNumberStyle::LowerRoman => wtag("LowerRoman"@, unit_payload()),
        ListNumberStyle::UpperRoman => wtag("UpperRoman"@, unit_payload()),
        ListNumberStyle::LowerAlpha => wtag("LowerAlpha"@, unit_payload()),
        ListNumberStyle::UpperAlpha => wtag("UpperAlpha"@, unit_payload()),
    }
}

pub open spec fn enc_list_number_delim(x: ListNumberDelim) -> JsonV {
    match x {
        ListNumberDelim::DefaultDelim => wtag("DefaultDelim"@, unit_payload()),
        ListNumberDelim::Period => wtag("Period"@, unit_payload()),
        ListNumberDelim::OneParen => wtag("OneParen"@, unit_payload()),
        ListNumberDelim::TwoParens => wtag("TwoParens"@, unit_payload()),
    }
}

pub open spec fn enc_quote_type(x: QuoteType) -> JsonV {
    match x {
        QuoteType::SingleQuote => wtag("SingleQuote"@, unit_payload()),
        QuoteType::DoubleQuote => wtag("DoubleQuote"@, unit_payload()),
    }
}

pub open spec fn enc_math_type(x: MathType) -> JsonV {
    match x {
        MathType::DisplayMath => wtag("DisplayMath"@, unit_payload()),
        MathType::InlineMath => wtag("InlineMath"@, unit_payload()),
    }
}

pub open spec fn enc_citation_mode(x: CitationMode) -> JsonV {
    match x {
        CitationMode::AuthorInText => wtag("AuthorInText"@, unit_payload()),
        CitationMode::SuppressAuthor => wtag("SuppressAuthor"@, unit_payload()),
        CitationMode::NormalCitation => wtag("NormalCitation"@, unit_payload()),
    }
}

pub open spec fn enc_str_arr(s: Seq<Seq<char>>) -> JsonV {
    JsonV::Arr(
        Seq::new(
            s.len(),
            |i: int|
                if 0 <= i < s.len() {
                    JsonV::Str(s[i])
                } else {
                    JsonV::Null
                },
        ),
    )
}

pub open spec fn enc_pair_arr(s: Seq<(Seq<char>, Seq<char>)>) -> JsonV {
    JsonV::Arr(
        Seq::new(
            s.len(),
            |i: int|
                if 0 <= i < s.len() {
                    JsonV::Arr(seq![JsonV::Str(s[i].0), JsonV::Str(s[i].1)])
                } else {
                    JsonV::Null
                },
        ),
    )
}

pub open spec fn enc_attr(a: AttrV) -> JsonV {
    JsonV::Arr(seq![JsonV::Str(a.0), enc_str_arr(a.1), enc_pair_arr(a.2)])
}

pub open spec fn enc_target(t: TargetV) -> JsonV {
    JsonV::Arr(seq![JsonV::Str(t.0), JsonV::Str(t.1)])
}

pub open spec fn enc_num_arr(s: Seq<JNumV>) -> JsonV {
    JsonV::Arr(
        Seq::new(
            s.len(),
            |i: int|
                if 0 <= i < s.len() {
                    JsonV::Num(s[i])
                } else {
                    JsonV::Null
                },
        ),
    )
}

pub open spec fn enc_alignment_arr(s: Seq<Alignment>) -> JsonV {
    JsonV::Arr(
        Seq::new(
            s.len(),
            |i: int|
                if 0 <= i < s.len() {
                    enc_alignment(s[i])
                } else {
                    JsonV::Null
                },
        ),
    )
}

pub open spec fn enc_list_attributes(la: ListAttributesV) -> JsonV {
    JsonV::Arr(
        seq![
            JsonV::Num(JNumV::Int(la.0)),
            enc_list_number_style(la.1),
            enc_list_number_delim(la.2),
        ],
    )
}

pub open spec fn enc_inline(x: InlineV) -> JsonV
    decreases x,
{
    match x {
        InlineV::Str(s) => wtag("Str"@, JsonV::Str(s)),
        InlineV::Emph(v) => wtag("Emph"@, enc_inline_arr(v)),
        InlineV::Strong(v) => wtag("Strong"@, enc_inline_arr(v)),
        InlineV::Strikeout(v) => wtag("Strikeout"@, enc_inline_arr(v)),
        InlineV::Superscript(v) => wtag("Superscript"@, enc_inline_arr(v)),
        InlineV::Subscript(v) => wtag("Subscript"@, enc_inline_arr(v)),
        InlineV::SmallCaps(v) => wtag("SmallCaps"@, enc_inline_arr(v)),
        InlineV::Quoted(q, v) => wtag(
            "Quoted"@,
            JsonV::Arr(seq![enc_quote_type(q), enc_inline_arr(v)]),
        ),
        InlineV::Cite(cs, v) => wtag(
            "Cite"@,
            JsonV::Arr(seq![enc_citation_arr(cs), enc_inline_arr(v)]),
        ),
        InlineV::Code(a, s) => wtag("Code"@, JsonV::Arr(seq![enc_attr(a), JsonV::Str(s)])),
        InlineV::Space => wtag("Space"@, unit_payload()),
        InlineV::LineBreak => wtag("LineBreak"@, unit_payload()),
        InlineV::Math(m, s) => wtag(
            "Math"@,
            JsonV::Arr(seq![enc_math_type(m), JsonV::Str(s)]),
        ),
        InlineV::RawInline(f, s) => wtag(
            "RawInline"@,
            JsonV::Arr(seq![JsonV::Str(f), JsonV::Str(s)]),
        ),
        InlineV::Link(v, t) => wtag("Link"@, JsonV::Arr(seq![enc_inline_arr(v), enc_target(t)])),
        InlineV::Image(v, t) => wtag(
            "Image"@,
            JsonV::Arr(seq![enc_inline_arr(v), enc_target(t)]),
        ),
        InlineV::Note(bs) => wtag("Note"@, enc_block_arr(bs)),
        InlineV::Span(a, v) => wtag("Span"@, JsonV::Arr(seq![enc_attr(a), enc_inline_arr(v)])),
    }
}

pub open spec fn enc_inline_arr(s: Seq<InlineV>) -> JsonV
    decreases s,
{
    JsonV::Arr(
        Seq::new(
            s.len(),
            |i: int|
                if 0 <= i < s.len() {
                    enc_inline(s[i])
                } else {
                    JsonV::Null
                },
        ),
    )
}

pub open spec fn enc_citation(c: CitationV) -> JsonV
    decreases c,
{
    JsonV::Obj(
        seq![
            ("citationId"@, JsonV::Str(c.id)),
            ("citationPrefix"@, enc_inline_arr(c.prefix)),
            ("citationSuffix"@, enc_inline_arr(c.suffix)),
            ("citationMode"@, enc_citation_mode(c.mode)),
            ("citationNoteNum"@, JsonV::Num(JNumV::Int(c.note_num))),
            ("citationHash"@, JsonV::Num(JNumV::Int(c.hash))),
        ],
    )
}

pub open spec fn enc_citation_arr(s: Seq<CitationV>) -> JsonV
    decreases s,
{
    JsonV::Arr(
        Seq::new(
            s.len(),
            |i: int|
                if 0 <= i < s.len() {
                    enc_citation(s[i])
                } else {
                    JsonV::Null
                },
        ),
    )
}

pub open spec fn enc_block(x: BlockV) -> JsonV
    decreases x,
{
    match x {
        BlockV::Plain(v) => wtag("Plain"@, enc_inline_arr(v)),
        BlockV::Para(v) => wtag("Para"@, enc_inline_arr(v)),
        BlockV::CodeBlock(a, s) => wtag(
            "CodeBlock"@,
            JsonV::Arr(seq![enc_attr(a), JsonV::Str(s)]),
        ),
        BlockV::RawBlock(f, s) => wtag(
            "RawBlock"@,
            JsonV::Arr(seq![JsonV::Str(f), JsonV::Str(s)]),
        ),
        BlockV::BlockQuote(v) => wtag("BlockQuote"@, enc_block_arr(v)),
        BlockV::OrderedList(la, items) => wtag(
            "OrderedList"@,
            JsonV::Arr(seq![enc_list_attributes(la), enc_items_arr(items)]),
        ),
        BlockV::BulletList(items) => wtag("BulletList"@, enc_items_arr(items)),
        BlockV::DefinitionList(defs) => wtag("DefinitionList"@, enc_def_arr(defs)),
        BlockV::Header(n, a, v) => wtag(
            "Header"@,
            JsonV::Arr(seq![JsonV::Num(JNumV::Int(n)), enc_attr(a), enc_inline_arr(v)]),
        ),
        BlockV::HorizontalRule => wtag("HorizontalRule"@, unit_payload()),
        BlockV::Table(cap, al, w, hd, rows) => wtag(
            "Table"@,
            JsonV::Arr(
                seq![
                    enc_inline_arr(cap),
                    enc_alignment_arr(al),
                    enc_num_arr(w),
                    enc_items_arr(hd),
                    enc_row_arr(rows),
                ],
            ),
        ),
        BlockV::Div(a, v) => wtag("Div"@, JsonV::Arr(seq![enc_attr(a), enc_block_arr(v)])),
        BlockV::Null => wtag("Null"@, unit_payload()),
    }
}

pub open spec fn enc_block_arr(s: Seq<BlockV>) -> JsonV
    decreases s,
{
    JsonV::Arr(
        Seq::new(
            s.len(),
            |i: int|
                if 0 <= i < s.len() {
                    enc_block(s[i])
                } else {
                    JsonV::Null
                },
        ),
    )
}

/// A list of items, each a list of blocks.
pub open spec fn enc_items_arr(s: Seq<Seq<BlockV>>) -> JsonV
    decreases s,
{
    JsonV::Arr(
        Seq::new(
            s.len(),
            |i: int|
                if 0 <= i < s.len() {
                    enc_block_arr(s[i])
                } else {
                    JsonV::Null
                },
        ),
    )
}

/// Table rows, each a list of cells.
pub open spec fn enc_row_arr(s: Seq<Seq<Seq<BlockV>>>) -> JsonV
    decreases s,
{
    JsonV::Arr(
        Seq::new(
            s.len(),
            |i: int|
                if 0 <= i < s.len() {
                    enc_items_arr(s[i])
                } else {
                    JsonV::Null
                },
        ),
    )
}

/// Definition-list items, each a pair of term and definitions.
pub open spec fn enc_def_arr(s: Seq<(Seq<InlineV>, Seq<Seq<BlockV>>)>) -> JsonV
    decreases s,
{
    JsonV::Arr(
        Seq::new(
            s.len(),
            |i: int|
                if 0 <= i < s.len() {
                    JsonV::Arr(seq![enc_inline_arr(s[i].0), enc_items_arr(s[i].1)])
                } else {
                    JsonV::Null
                },
        ),
    )
}

pub open spec fn enc_metavalue(x: MetaValueV) -> JsonV
    decreases x,
{
    match x {
        MetaValueV::MetaMap(m) => wtag("MetaMap"@, enc_metamap_obj(m)),
        MetaValueV::MetaList(v) => wtag("MetaList"@, enc_metavalue_arr(v)),
        MetaValueV::MetaBool(b) => wtag("MetaBool"@, JsonV::Bool(b)),
        MetaValueV::MetaString(s) => wtag("MetaString"@, JsonV::Str(s)),
        MetaValueV::MetaInlines(v) => wtag("MetaInlines"@, enc_inline_arr(v)),
        MetaValueV::MetaBlocks(v) => wtag("MetaBlocks"@, enc_block_arr(v)),
    }
}

/// A metadata map as an ordinary object: keys kept, values encoded.
pub open spec fn enc_metamap_obj(s: Seq<(Seq<char>, MetaValueV)>) -> JsonV
    decreases s,
{
    JsonV::Obj(
        Seq::new(
            s.len(),
            |i: int|
                if 0 <= i < s.len() {
                    (s[i].0, enc_metavalue(s[i].1))
                } else {
                    (Seq::empty(), JsonV::Null)
                },
        ),
    )
}

pub open spec fn enc_metavalue_arr(s: Seq<MetaValueV>) -> JsonV
    decreases s,
{
    JsonV::Arr(
        Seq::new(
            s.len(),
            |i: int|
                if 0 <= i < s.len() {
                    enc_metavalue(s[i])
                } else {
                    JsonV::Null
                },
        ),
    )
}

pub open spec fn enc_meta(m: Seq<(Seq<char>, MetaValueV)>) -> JsonV {
    JsonV::Obj(seq![("unMeta"@, enc_metamap_obj(m))])
}

/// The whole document: a two-element array of metadata and blocks.
pub open spec fn enc_pandoc(d: PandocV) -> JsonV {
    JsonV::Arr(seq![enc_meta(d.meta), enc_block_arr(d.blocks)])
}

} // verus!

verus! {

/// An empty-array payload.
fn arr0() -> (r: Json)
    ensures
        r@ == unit_payload(),
{
    let out: Vec<Json> = Vec::new();
    let r = Json::Arr(out);
    proof {
        assert(jsons_view(r->Arr_0@) =~= Seq::<JsonV>::empty());
    }
    r
}

/// A two-element array.
fn arr2(a: Json, b: Json) -> (r: Json)
    ensures
        r@ == JsonV::Arr(seq![a@, b@]),
{
    let ghost (av, bv) = (a@, b@);
    let mut out: Vec<Json> = Vec::new();
    out.push(a);
    out.push(b);
    let r = Json::Arr(out);
    proof {
        assert(jsons_view(r->Arr_0@) =~= seq![av, bv]);
    }
    r
}

/// A three-element array.
fn arr3(a: Json, b: Json, c: Json) -> (r: Json)
    ensures
        r@ == JsonV::Arr(seq![a@, b@, c@]),
{
    let ghost (av, bv, cv) = (a@, b@, c@);
    let mut out: Vec<Json> = Vec::new();
    out.push(a);
    out.push(b);
    out.push(c);
    let r = Json::Arr(out);
    proof {
        assert(jsons_view(r->Arr_0@) =~= seq![av, bv, cv]);
    }
    r
}

/// A five-element array.
fn arr5(a: Json, b: Json, c: Json, d: Json, e: Json) -> (r: Json)
    ensures
        r@ == JsonV::Arr(seq![a@, b@, c@, d@, e@]),
{
    let ghost (av, bv, cv, dv, ev) = (a@, b@, c@, d@, e@);
    let mut out: Vec<Json> = Vec::new();
    out.push(a);
    out.push(b);
    out.push(c);
    out.push(d);
    out.push(e);
    let r = Json::Arr(out);
    proof {
        assert(jsons_view(r->Arr_0@) =~= seq![av, bv, cv, dv, ev]);
    }
    r
}

/// The `{"t": name, "c": c}` wrapper.
fn tag(name: &str, c: Json) -> (r: Json)
    ensures
        r@ == wtag(name@, c@),
{
    let ghost cv = c@;
    let mut entries: Vec<(String, Json)> = Vec::new();
    entries.push(("t".to_owned(), Json::Str(name.to_owned())));
    entries.push(("c".to_owned(), c));
    let r = Json::Obj(entries);
    proof {
        assert(entries_view(r->Obj_0@) =~= seq![("t"@, JsonV::Str(name@)), ("c"@, cv)]);
    }
    r
}

/// The wrapper of a zero-field variant.
fn unit_tag(name: &str) -> (r: Json)
    ensures
        r@ == wtag(name@, unit_payload()),
{
    tag(name, arr0())
}

#[verifier::loop_isolation(false)]
pub fn encode_alignment(x: &Alignment) -> (r: Json)
    ensures
        r@ == enc_alignment(*x),
{
    match x {
        Alignment::AlignLeft => unit_tag("AlignLeft"),
        Alignment::AlignRight => unit_tag("AlignRight"),
        Alignment::AlignCenter => unit_tag("AlignCenter"),
        Alignment::AlignDefault => unit_tag("AlignDefault"),
    }
}

#[verifier::loop_isolation(false)]
pub fn encode_list_number_style(x: &ListNumberStyle) -> (r: Json)
    ensures
        r@ == enc_list_number_style(*x),
{
    match x {
        ListNumberStyle::DefaultStyle => unit_tag("DefaultStyle"),
        ListNumberStyle::Example => unit_tag("Example"),
        ListNumberStyle::Decimal => unit_tag("Decimal"),
        ListNumberStyle::LowerRoman => unit_tag("LowerRoman"),
        ListNumberStyle::UpperRoman => unit_tag("UpperRoman"),
        ListNumberStyle::LowerAlpha => unit_tag("LowerAlpha"),
        ListNumberStyle::UpperAlpha => unit_tag("UpperAlpha"),
    }
}

#[verifier::loop_isolation(false)]
pub fn encode_list_number_delim(x: &ListNumberDelim) -> (r: Json)
    ensures
        r@ == enc_list_number_delim(*x),
{
    match x {
        ListNumberDelim::DefaultDelim => unit_tag("DefaultDelim"),
        ListNumberDelim::Period => unit_tag("Period"),
        ListNumberDelim::OneParen => unit_tag("OneParen"),
        ListNumberDelim::TwoParens => unit_tag("TwoParens"),
    }
}

#[verifier::loop_isolation(false)]
pub fn encode_quote_type(x: &QuoteType) -> (r: Json)
    ensures
        r@ == enc_quote_type(*x),
{
    match x {
        QuoteType::SingleQuote => unit_tag("SingleQuote"),
        QuoteType::DoubleQuote => unit_tag("DoubleQuote"),
    }
}

#[verifier::loop_isolation(false)]
pub fn encode_math_type(x: &MathType) -> (r: Json)
    ensures
        r@ == enc_math_type(*x),
{
    match x {
        MathType::DisplayMath => unit_tag("DisplayMath"),
        MathType::InlineMath => unit_tag("InlineMath"),
    }
}

#[verifier::loop_isolation(false)]
pub fn encode_citation_mode(x: &CitationMode) -> (r: Json)
    ensures
        r@ == enc_citation_mode(*x),
{
    match x {
        CitationMode::AuthorInText => unit_tag("AuthorInText"),
        CitationMode::SuppressAuthor => unit_tag("SuppressAuthor"),
        CitationMode::NormalCitation => unit_tag("NormalCitation"),
    }
}

#[verifier::loop_isolation(false)]
pub fn encode_strings(v: &Vec<String>) -> (r: Json)
    ensures
        r@ == enc_str_arr(strings_view(v@)),
{
    let ghost s = strings_view(v@);
    let mut out: Vec<Json> = Vec::new();
    let mut i: usize = 0;
    while i < v.len()
        invariant
            0 <= i <= v.len(),
            out@.len() == i,
            forall|k: int| 0 <= k < i ==> (#[trigger] out@[k])@ == JsonV::Str(s[k]),
        decreases v.len() - i,
    {
        let e = Json::Str(v[i].clone());
        let ghost ev = e@;
        out.push(e);
        proof {
            assert(out@[i as int]@ == ev);
            assert(s[i as int] == v@[i as int]@);
        }
        i = i + 1;
    }
    let r = Json::Arr(out);
    proof {
        assert(jsons_view(r->Arr_0@) =~= enc_str_arr(s)->Arr_0);
    }
    r
}

#[verifier::loop_isolation(false)]
pub fn encode_pairs(v: &Vec<(String, String)>) -> (r: Json)
    ensures
        r@ == enc_pair_arr(pairs_view(v@)),
{
    let ghost s = pairs_view(v@);
    let mut out: Vec<Json> = Vec::new();
    let mut i: usize = 0;
    while i < v.len()
        invariant
            0 <= i <= v.len(),
            out@.len() == i,
            forall|k: int|
                0 <= k < i ==> (#[trigger] out@[k])@ == JsonV::Arr(
                    seq![JsonV::Str(s[k].0), JsonV::Str(s[k].1)],
                ),
        decreases v.len() - i,
    {
        let e = arr2(Json::Str(v[i].0.clone()), Json::Str(v[i].1.clone()));
        let ghost ev = e@;
        out.push(e);
        proof {
            assert(out@[i as int]@ == ev);
            assert(s[i as int] == (v@[i as int].0@, v@[i as int].1@));
        }
        i = i + 1;
    }
    let r = Json::Arr(out);
    proof {
        assert(jsons_view(r->Arr_0@) =~= enc_pair_arr(s)->Arr_0);
    }
    r
}

#[verifier::loop_isolation(false)]
pub fn encode_attr(a: &Attr) -> (r: Json)
    ensures
        r@ == enc_attr(attr_view(*a)),
{
    arr3(Json::Str(a.0.clone()), encode_strings(&a.1), encode_pairs(&a.2))
}

#[verifier::loop_isolation(false)]
pub fn encode_target(t: &Target) -> (r: Json)
    ensures
        r@ == enc_target(target_view(*t)),
{
    arr2(Json::Str(t.0.clone()), Json::Str(t.1.clone()))
}

#[verifier::loop_isolation(false)]
pub fn encode_nums(v: &Vec<JNum>) -> (r: Json)
    ensures
        r@ == enc_num_arr(nums_view(v@)),
{
    let ghost s = nums_view(v@);
    let mut out: Vec<Json> = Vec::new();
    let mut i: usize = 0;
    while i < v.len()
        invariant
            0 <= i <= v.len(),
            out@.len() == i,
            forall|k: int| 0 <= k < i ==> (#[trigger] out@[k])@ == JsonV::Num(s[k]),
        decreases v.len() - i,
    {
        let e = Json::Num(v[i].dup());
        let ghost ev = e@;
        out.push(e);
        proof {
            assert(out@[i as int]@ == ev);
            assert(s[i as int] == v@[i as int]@);
        }
        i = i + 1;
    }
    let r = Json::Arr(out);
    proof {
        assert(jsons_view(r->Arr_0@) =~= enc_num_arr(s)->Arr_0);
    }
    r
}

#[verifier::loop_isolation(false)]
pub fn encode_alignments(v: &Vec<Alignment>) -> (r: Json)
    ensures
        r@ == enc_alignment_arr(v@),
{
    let mut out: Vec<Json> = Vec::new();
    let mut i: usize = 0;
    while i < v.len()
        invariant
            0 <= i <= v.len(),
            out@.len() == i,
            forall|k: int| 0 <= k < i ==> (#[trigger] out@[k])@ == enc_alignment(v@[k]),
        decreases v.len() - i,
    {
        let e = encode_alignment(&v[i]);
        let ghost ev = e@;
        out.push(e);
        proof {
            assert(out@[i as int]@ == ev);
        }
        i = i + 1;
    }
    let r = Json::Arr(out);
    proof {
        assert(jsons_view(r->Arr_0@) =~= enc_alignment_arr(v@)->Arr_0);
    }
    r
}

#[verifier::loop_isolation(false)]
pub fn encode_list_attributes(la: &ListAttributes) -> (r: Json)
    ensures
        r@ == enc_list_attributes(*la),
{
    arr3(
        Json::Num(JNum::Int(la.0)),
        encode_list_number_style(&la.1),
        encode_list_number_delim(&la.2),
    )
}

#[verifier::loop_isolation(false)]
pub fn encode_inline(x: &Inline) -> (r: Json)
    ensures
        r@ == enc_inline(x@),
    decreases x,
{
    match x {
        Inline::Str(st) => tag("Str", Json::Str(st.clone())),
        Inline::Emph(v) => tag("Emph", encode_inlines(v)),
        Inline::Strong(v) => tag("Strong", encode_inlines(v)),
        Inline::Strikeout(v) => tag("Strikeout", encode_inlines(v)),
        Inline::Superscript(v) => tag("Superscript", encode_inlines(v)),
        Inline::Subscript(v) => tag("Subscript", encode_inlines(v)),
        Inline::SmallCaps(v) => tag("SmallCaps", encode_inlines(v)),
        Inline::Quoted(q, v) => tag("Quoted", arr2(encode_quote_type(q), encode_inlines(v))),
        Inline::Cite(cs, v) => tag("Cite", arr2(encode_citations(cs), encode_inlines(v))),
        Inline::Code(a, st) => tag("Code", arr2(encode_attr(a), Json::Str(st.clone()))),
        Inline::Space => unit_tag("Space"),
        Inline::LineBreak => unit_tag("LineBreak"),
        Inline::Math(m, st) => tag("Math", arr2(encode_math_type(m), Json::Str(st.clone()))),
        Inline::RawInline(f, st) => tag(
            "RawInline",
            arr2(Json::Str(f.0.clone()), Json::Str(st.clone())),
        ),
        Inline::Link(v, t) => tag("Link", arr2(encode_inlines(v), encode_target(t))),
        Inline::Image(v, t) => tag("Image", arr2(encode_inlines(v), encode_target(t))),
        Inline::Note(bs) => tag("Note", encode_blocks(bs)),
        Inline::Span(a, v) => tag("Span", arr2(encode_attr(a), encode_inlines(v))),
    }
}

#[verifier::loop_isolation(false)]
pub fn encode_inlines(v: &Vec<Inline>) -> (r: Json)
    ensures
        r@ == enc_inline_arr(inlines_view(v@)),
    decreases v,
{
    let ghost s = inlines_view(v@);
    let mut out: Vec<Json> = Vec::new();
    let mut i: usize = 0;
    while i < v.len()
        invariant
            0 <= i <= v.len(),
            out@.len() == i,
            forall|k: int| 0 <= k < i ==> (#[trigger] out@[k])@ == enc_inline(s[k]),
        decreases v.len() - i,
    {
        proof {
            assert(decreases_to!(*v => v@));
            assert(decreases_to!(v@ => v@[i as int]));
            assert(decreases_to!(*v => v@[i as int]));
        }
        let e = encode_inline(&v[i]);
        let ghost ev = e@;
        out.push(e);
        proof {
            assert(out@[i as int]@ == ev);
            assert(s[i as int] == v@[i as int]@);
        }
        i = i + 1;
    }
    let r = Json::Arr(out);
    proof {
        assert(jsons_view(r->Arr_0@) =~= enc_inline_arr(s)->Arr_0);
    }
    r
}

#[verifier::loop_isolation(false)]
pub fn encode_citation(c: &Citation) -> (r: Json)
    ensures
        r@ == enc_citation(c@),
    decreases c,
{
    let mut entries: Vec<(String, Json)> = Vec::new();
    entries.push(("citationId".to_owned(), Json::Str(c.citationId.clone())));
    entries.push(("citationPrefix".to_owned(), encode_inlines(&c.citationPrefix)));
    entries.push(("citationSuffix".to_owned(), encode_inlines(&c.citationSuffix)));
    entries.push(("citationMode".to_owned(), encode_citation_mode(&c.citationMode)));
    entries.push(("citationNoteNum".to_owned(), Json::Num(JNum::Int(c.citationNoteNum))));
    entries.push(("citationHash".to_owned(), Json::Num(JNum::Int(c.citationHash))));
    let r = Json::Obj(entries);
    proof {
        assert(entries_view(r->Obj_0@) =~= enc_citation(c@)->Obj_0);
    }
    r
}

#[verifier::loop_isolation(false)]
pub fn encode_citations(v: &Vec<Citation>) -> (r: Json)
    ensures
        r@ == enc_citation_arr(citations_view(v@)),
    decreases v,
{
    let ghost s = citations_view(v@);
    let mut out: Vec<Json> = Vec::new();
    let mut i: usize = 0;
    while i < v.len()
        invariant
            0 <= i <= v.len(),
            out@.len() == i,
            forall|k: int| 0 <= k < i ==> (#[trigger] out@[k])@ == enc_citation(s[k]),
        decreases v.len() - i,
    {
        proof {
            assert(decreases_to!(*v => v@));
            assert(decreases_to!(v@ => v@[i as int]));
            assert(decreases_to!(*v => v@[i as int]));
        }
        let e = encode_citation(&v[i]);
        let ghost ev = e@;
        out.push(e);
        proof {
            assert(out@[i as int]@ == ev);
            assert(s[i as int] == v@[i as int]@);
        }
        i = i + 1;
    }
    let r = Json::Arr(out);
    proof {
        assert(jsons_view(r->Arr_0@) =~= enc_citation_arr(s)->Arr_0);
    }
    r
}

#[verifier::loop_isolation(false)]
pub fn encode_block(x: &Block) -> (r: Json)
    ensures
        r@ == enc_block(x@),
    decreases x,
{
    match x {
        Block::Plain(v) => tag("Plain", encode_inlines(v)),
        Block::Para(v) => tag("Para", encode_inlines(v)),
        Block::CodeBlock(a, st) => tag("CodeBlock", arr2(encode_attr(a), Json::Str(st.clone()))),
        Block::RawBlock(f, st) => tag(
            "RawBlock",
            arr2(Json::Str(f.0.clone()), Json::Str(st.clone())),
        ),
        Block::BlockQuote(v) => tag("BlockQuote", encode_blocks(v)),
        Block::OrderedList(la, items) => tag(
            "OrderedList",
            arr2(encode_list_attributes(la), encode_items(items)),
        ),
        Block::BulletList(items) => tag("BulletList", encode_items(items)),
        Block::DefinitionList(defs) => tag("DefinitionList", encode_defs(defs)),
        Block::Header(n, a, v) => tag(
            "Header",
            arr3(Json::Num(JNum::Int(*n)), encode_attr(a), encode_inlines(v)),
        ),
        Block::HorizontalRule => unit_tag("HorizontalRule"),
        Block::Table(cap, al, w, hd, rows) => tag(
            "Table",
            arr5(
                encode_inlines(cap),
                encode_alignments(al),
                encode_nums(w),
                encode_items(hd),
                encode_rows(rows),
            ),
        ),
        Block::Div(a, v) => tag("Div", arr2(encode_attr(a), encode_blocks(v))),
        Block::Null => unit_tag("Null"),
    }
}

#[verifier::loop_isolation(false)]
pub fn encode_blocks(v: &Vec<Block>) -> (r: Json)
    ensures
        r@ == enc_block_arr(blocks_view(v@)),
    decreases v,
{
    let ghost s = blocks_view(v@);
    let mut out: Vec<Json> = Vec::new();
    let mut i: usize = 0;
    while i < v.len()
        invariant
            0 <= i <= v.len(),
            out@.len() == i,
            forall|k: int| 0 <= k < i ==> (#[trigger] out@[k])@ == enc_block(s[k]),
        decreases v.len() - i,
    {
        proof {
            assert(decreases_to!(*v => v@));
            assert(decreases_to!(v@ => v@[i as int]));
            assert(decreases_to!(*v => v@[i as int]));
        }
        let e = encode_block(&v[i]);
        let ghost ev = e@;
        out.push(e);
        proof {
            assert(out@[i as int]@ == ev);
            assert(s[i as int] == v@[i as int]@);
        }
        i = i + 1;
    }
    let r = Json::Arr(out);
    proof {
        assert(jsons_view(r->Arr_0@) =~= enc_block_arr(s)->Arr_0);
    }
    r
}

#[verifier::loop_isolation(false)]
pub fn encode_items(v: &Vec<Vec<Block>>) -> (r: Json)
    ensures
        r@ == enc_items_arr(items_view(v@)),
    decreases v,
{
    let ghost s = items_view(v@);
    let mut out: Vec<Json> = Vec::new();
    let mut i: usize = 0;
    while i < v.len()
        invariant
            0 <= i <= v.len(),
            out@.len() == i,
            forall|k: int| 0 <= k < i ==> (#[trigger] out@[k])@ == enc_block_arr(s[k]),
        decreases v.len() - i,
    {
        proof {
            assert(decreases_to!(*v => v@));
            assert(decreases_to!(v@ => v@[i as int]));
            assert(decreases_to!(*v => v@[i as int]));
        }
        let e = encode_blocks(&v[i]);
        let ghost ev = e@;
        out.push(e);
        proof {
            assert(out@[i as int]@ == ev);
            assert(s[i as int] == blocks_view(v@[i as int]@));
        }
        i = i + 1;
    }
    let r = Json::Arr(out);
    proof {
        assert(jsons_view(r->Arr_0@) =~= enc_items_arr(s)->Arr_0);
    }
    r
}

#[verifier::loop_isolation(false)]
pub fn encode_rows(v: &Vec<Vec<TableCell>>) -> (r: Json)
    ensures
        r@ == enc_row_arr(rows_view(v@)),
    decreases v,
{
    let ghost s = rows_view(v@);
    let mut out: Vec<Json> = Vec::new();
    let mut i: usize = 0;
    while i < v.len()
        invariant
            0 <= i <= v.len(),
            out@.len() == i,
            forall|k: int| 0 <= k < i ==> (#[trigger] out@[k])@ == enc_items_arr(s[k]),
        decreases v.len() - i,
    {
        proof {
            assert(decreases_to!(*v => v@));
            assert(decreases_to!(v@ => v@[i as int]));
            assert(decreases_to!(*v => v@[i as int]));
        }
        let e = encode_items(&v[i]);
        let ghost ev = e@;
        out.push(e);
        proof {
            assert(out@[i as int]@ == ev);
            assert(s[i as int] == items_view(v@[i as int]@));
        }
        i = i + 1;
    }
    let r = Json::Arr(out);
    proof {
        assert(jsons_view(r->Arr_0@) =~= enc_row_arr(s)->Arr_0);
    }
    r
}

#[verifier::loop_isolation(false)]
pub fn encode_defs(v: &Vec<(Vec<Inline>, Vec<Vec<Block>>)>) -> (r: Json)
    ensures
        r@ == enc_def_arr(defs_view(v@)),
    decreases v,
{
    let ghost s = defs_view(v@);
    let mut out: Vec<Json> = Vec::new();
    let mut i: usize = 0;
    while i < v.len()
        invariant
            0 <= i <= v.len(),
            out@.len() == i,
            forall|k: int|
                0 <= k < i ==> (#[trigger] out@[k])@ == JsonV::Arr(
                    seq![enc_inline_arr(s[k].0), enc_items_arr(s[k].1)],
                ),
        decreases v.len() - i,
    {
        proof {
            assert(decreases_to!(*v => v@));
            assert(decreases_to!(v@ => v@[i as int]));
            assert(decreases_to!(v@[i as int] => v@[i as int].0));
            assert(decreases_to!(v@[i as int] => v@[i as int].1));
            assert(decreases_to!(*v => v@[i as int].0));
            assert(decreases_to!(*v => v@[i as int].1));
        }
        let e = arr2(encode_inlines(&v[i].0), encode_items(&v[i].1));
        let ghost ev = e@;
        out.push(e);
        proof {
            assert(out@[i as int]@ == ev);
            assert(s[i as int] == (inlines_view(v@[i as int].0@), items_view(v@[i as int].1@)));
        }
        i = i + 1;
    }
    let r = Json::Arr(out);
    proof {
        assert(jsons_view(r->Arr_0@) =~= enc_def_arr(s)->Arr_0);
    }
    r
}

#[verifier::loop_isolation(false)]
pub fn encode_metavalue(x: &MetaValue) -> (r: Json)
    ensures
        r@ == enc_metavalue(x@),
    decreases x,
{
    match x {
        MetaValue::MetaMap(m) => tag("MetaMap", encode_metamap(m)),
        MetaValue::MetaList(v) => tag("MetaList", encode_metalist(v)),
        MetaValue::MetaBool(b) => tag("MetaBool", Json::Bool(*b)),
        MetaValue::MetaString(st) => tag("MetaString", Json::Str(st.clone())),
        MetaValue::MetaInlines(v) => tag("MetaInlines", encode_inlines(v)),
        MetaValue::MetaBlocks(v) => tag("MetaBlocks", encode_blocks(v)),
    }
}

#[verifier::loop_isolation(false)]
pub fn encode_metamap(v: &Vec<(String, MetaValue)>) -> (r: Json)
    ensures
        r@ == enc_metamap_obj(metamap_view(v@)),
    decreases v,
{
    let ghost s = metamap_view(v@);
    let mut out: Vec<(String, Json)> = Vec::new();
    let mut i: usize = 0;
    while i < v.len()
        invariant
            0 <= i <= v.len(),
            out@.len() == i,
            forall|k: int|
                0 <= k < i ==> (#[trigger] out@[k]).0@ == s[k].0 && out@[k].1@ == enc_metavalue(
                    s[k].1,
                ),
        decreases v.len() - i,
    {
        proof {
            assert(decreases_to!(*v => v@));
            assert(decreases_to!(v@ => v@[i as int]));
            assert(decreases_to!(v@[i as int] => v@[i as int].1));
            assert(decreases_to!(*v => v@[i as int].1));
        }
        let e = encode_metavalue(&v[i].1);
        let p = (v[i].0.clone(), e);
        let ghost pv = (p.0@, p.1@);
        out.push(p);
        proof {
            assert((out@[i as int].0@, out@[i as int].1@) == pv);
            assert(s[i as int] == (v@[i as int].0@, v@[i as int].1@));
        }
        i = i + 1;
    }
    let r = Json::Obj(out);
    proof {
        assert(entries_view(r->Obj_0@) =~= enc_metamap_obj(s)->Obj_0);
    }
    r
}

#[verifier::loop_isolation(false)]
pub fn encode_metalist(v: &Vec<MetaValue>) -> (r: Json)
    ensures
        r@ == enc_metavalue_arr(metalist_view(v@)),
    decreases v,
{
    let ghost s = metalist_view(v@);
    let mut out: Vec<Json> = Vec::new();
    let mut i: usize = 0;
    while i < v.len()
        invariant
            0 <= i <= v.len(),
            out@.len() == i,
            forall|k: int| 0 <= k < i ==> (#[trigger] out@[k])@ == enc_metavalue(s[k]),
        decreases v.len() - i,
    {
        proof {
            assert(decreases_to!(*v => v@));
            assert(decreases_to!(v@ => v@[i as int]));
            assert(decreases_to!(*v => v@[i as int]));
        }
        let e = encode_metavalue(&v[i]);
        let ghost ev = e@;
        out.push(e);
        proof {
            assert(out@[i as int]@ == ev);
            assert(s[i as int] == v@[i as int]@);
        }
        i = i + 1;
    }
    let r = Json::Arr(out);
    proof {
        assert(jsons_view(r->Arr_0@) =~= enc_metavalue_arr(s)->Arr_0);
    }
    r
}

#[verifier::loop_isolation(false)]
pub fn encode_meta(m: &Meta) -> (r: Json)
    ensures
        r@ == enc_meta(m@),
{
    let inner = encode_metamap(&m.unMeta);
    let ghost iv = inner@;
    let mut entries: Vec<(String, Json)> = Vec::new();
    entries.push(("unMeta".to_owned(), inner));
    let r = Json::Obj(entries);
    proof {
        assert(entries_view(r->Obj_0@) =~= seq![("unMeta"@, iv)]);
    }
    r
}

/// Encode a whole document into its external JSON form.
#[verifier::loop_isolation(false)]
pub fn encode_pandoc(d: &Pandoc) -> (r: Json)
    ensures
        r@ == enc_pandoc(d@),
{
    arr2(encode_meta(&d.0), encode_blocks(&d.1))
}

} // verus!
