//! The typed decoder: normalized JSON (single-key tagged objects) into
//! the document model. A zero-field variant expects an empty-array
//! payload, a one-field variant the field's value, a variant of two or
//! more fields an array of exactly that many elements; a single-key
//! object whose key names no variant, or a payload of the wrong shape
//! or length, is rejected.

use vstd::prelude::*;

use crate::enc::unit_payload;
use crate::error::DecodeKind;
use crate::error::Error;
use crate::json::JNum;
use crate::json::JNumV;
use crate::json::Json;
use crate::json::JsonV;
use crate::json::entries_view;
use crate::json::find_key;
use crate::json::json_view;
use crate::json::jsons_view;
use crate::json::key_at;
use crate::json::str_is;
use crate::model::Alignment;
use crate::model::attr_view;
use crate::model::blocks_view;
use crate::model::citation_view;
use crate::model::citations_view;
use crate::model::defs_view;
use crate::model::inlines_view;
use crate::model::items_view;
use crate::model::meta_view;
use crate::model::metalist_view;
use crate::model::metamap_view;
use crate::model::metavalue_view;
use crate::model::nums_view;
use crate::model::pairs_view;
use crate::model::pandoc_view;
use crate::model::rows_view;
use crate::model::strings_view;
use crate::model::target_view;
use crate::model::Attr;
use crate::model::AttrV;
use crate::model::Block;
use crate::model::BlockV;
use crate::model::Citation;
use crate::model::CitationMode;
use crate::model::CitationV;
use crate::model::Format;
use crate::model::Inline;
use crate::model::InlineV;
use crate::model::ListAttributes;
use crate::model::ListAttributesV;
use crate::model::ListNumberDelim;
use crate::model::ListNumberStyle;
use crate::model::MathType;
use crate::model::Meta;
use crate::model::MetaValue;
use crate::model::MetaValueV;
use crate::model::Pandoc;
use crate::model::PandocV;
use crate::model::QuoteType;
use crate::model::TableCell;
use crate::model::Target;
use crate::model::TargetV;

verus! {

pub open spec fn dec_str(j: JsonV) -> Option<Seq<char>> {
    match j {
        JsonV::Str(s) => Some(s),
        _ => None,
    }
}

pub open spec fn dec_int(j: JsonV) -> Option<i64> {
    match j {
        JsonV::Num(JNumV::Int(i)) => Some(i),
        _ => None,
    }
}

pub open spec fn dec_bool(j: JsonV) -> Option<bool> {
    match j {
        JsonV::Bool(b) => Some(b),
        _ => None,
    }
}

pub open spec fn dec_num(j: JsonV) -> Option<JNumV> {
    match j {
        JsonV::Num(n) => Some(n),
        _ => None,
    }
}

/// The single entry of a one-key object.
pub open spec fn un_tag(j: JsonV) -> Option<(Seq<char>, JsonV)> {
    match j {
        JsonV::Obj(s) => if s.len() == 1 {
            Some((s[0].0, s[0].1))
        } else {
            None
        },
        _ => None,
    }
}

pub open spec fn dec_alignment(j: JsonV) -> Option<Alignment> {
    match un_tag(j) {
        Some((n, c)) => if c == unit_payload() {
            if n == "AlignLeft"@ {
                Some(Alignment::AlignLeft)
            } else if n == "AlignRight"@ {
                Some(Alignment::AlignRight)
            } else if n == "AlignCenter"@ {
                Some(Alignment::AlignCenter)
            } else if n == "AlignDefault"@ {
                Some(Alignment::AlignDefault)
            } else {
                None
            }
        } else {
            None
        },
        None => None,
    }
}

pub open spec fn dec_list_number_style(j: JsonV) -> Option<ListNumberStyle> {
    match un_tag(j) {
        Some((n, c)) => if c == unit_payload() {
            if n == "DefaultStyle"@ {
                Some(ListNumberStyle::DefaultStyle)
            } else if n == "Example"@ {
                Some(ListNumberStyle::Example)
            } else if n == "Decimal"@ {
                Some(ListNumberStyle::Decimal)
            } else if n == "LowerRoman"@ {
                Some(ListNumberStyle::LowerRoman)
            } else if n == "UpperRoman"@ {
                Some(ListNumberStyle::UpperRoman)
            } else if n == "LowerAlpha"@ {
                Some(ListNumberStyle::LowerAlpha)
            } else if n == "UpperAlpha"@ {
                Some(ListNumberStyle::UpperAlpha)
            } else {
                None
            }
        } else {
            None
        },
        None => None,
    }
}

pub open spec fn dec_list_number_delim(j: JsonV) -> Option<ListNumberDelim> {
    match un_tag(j) {
        Some((n, c)) => if c == unit_payload() {
            if n == "DefaultDelim"@ {
                Some(ListNumberDelim::DefaultDelim)
            } else if n == "Period"@ {
                Some(ListNumberDelim::Period)
            } else if n == "OneParen"@ {
                Some(ListNumberDelim::OneParen)
            } else if n == "TwoParens"@ {
                Some(ListNumberDelim::TwoParens)
            } else {
                None
            }
        } else {
            None
        },
        None => None,
    }
}

pub open spec fn dec_quote_type(j: JsonV) -> Option<QuoteType> {
    match un_tag(j) {
        Some((n, c)) => if c == unit_payload() {
            if n == "SingleQuote"@ {
                Some(QuoteType::SingleQuote)
            } else if n == "DoubleQuote"@ {
                Some(QuoteType::DoubleQuote)
            } else {
                None
            }
        } else {
            None
        },
        None => None,
    }
}

pub open spec fn dec_math_type(j: JsonV) -> Option<MathType> {
    match un_tag(j) {
        Some((n, c)) => if c == unit_payload() {
            if n == "DisplayMath"@ {
                Some(MathType::DisplayMath)
            } else if n == "InlineMath"@ {
                Some(MathType::InlineMath)
            } else {
                None
            }
        } else {
            None
        },
        None => None,
    }
}

pub open spec fn dec_citation_mode(j: JsonV) -> Option<CitationMode> {
    match un_tag(j) {
        Some((n, c)) => if c == unit_payload() {
            if n == "AuthorInText"@ {
                Some(CitationMode::AuthorInText)
            } else if n == "SuppressAuthor"@ {
                Some(CitationMode::SuppressAuthor)
            } else if n == "NormalCitation"@ {
                Some(CitationMode::NormalCitation)
            } else {
                None
            }
        } else {
            None
        },
        None => None,
    }
}

pub open spec fn dec_str_seq(s: Seq<JsonV>) -> Option<Seq<Seq<char>>>
    decreases s,
{
    if s.len() == 0 {
        Some(Seq::empty())
    } else {
        let init = dec_str_seq(s.subrange(0, s.len() - 1));
        let last = dec_str(s[s.len() - 1]);
        if init is Some && last is Some {
            Some(init.unwrap().push(last.unwrap()))
        } else {
            None
        }
    }
}

pub open spec fn dec_strs(j: JsonV) -> Option<Seq<Seq<char>>> {
    match j {
        JsonV::Arr(s) => dec_str_seq(s),
        _ => None,
    }
}

pub open spec fn dec_pair(j: JsonV) -> Option<(Seq<char>, Seq<char>)> {
    match j {
        JsonV::Arr(p) => if p.len() == 2 {
            match (dec_str(p[0]), dec_str(p[1])) {
                (Some(a), Some(b)) => Some((a, b)),
                _ => None,
            }
        } else {
            None
        },
        _ => None,
    }
}

pub open spec fn dec_pair_seq(s: Seq<JsonV>) -> Option<Seq<(Seq<char>, Seq<char>)>>
    decreases s,
{
    if s.len() == 0 {
        Some(Seq::empty())
    } else {
        let init = dec_pair_seq(s.subrange(0, s.len() - 1));
        let last = dec_pair(s[s.len() - 1]);
        if init is Some && last is Some {
            Some(init.unwrap().push(last.unwrap()))
        } else {
            None
        }
    }
}

pub open spec fn dec_pairs(j: JsonV) -> Option<Seq<(Seq<char>, Seq<char>)>> {
    match j {
        JsonV::Arr(s) => dec_pair_seq(s),
        _ => None,
    }
}

pub open spec fn dec_attr(j: JsonV) -> Option<AttrV> {
    match j {
        JsonV::Arr(p) => if p.len() == 3 {
            match (dec_str(p[0]), dec_strs(p[1]), dec_pairs(p[2])) {
                (Some(a), Some(b), Some(c)) => Some((a, b, c)),
                _ => None,
            }
        } else {
            None
        },
        _ => None,
    }
}

pub open spec fn dec_target(j: JsonV) -> Option<TargetV> {
    dec_pair(j)
}

pub open spec fn dec_num_seq(s: Seq<JsonV>) -> Option<Seq<JNumV>>
    decreases s,
{
    if s.len() == 0 {
        Some(Seq::empty())
    } else {
        let init = dec_num_seq(s.subrange(0, s.len() - 1));
        let last = dec_num(s[s.len() - 1]);
        if init is Some && last is Some {
            Some(init.unwrap().push(last.unwrap()))
        } else {
            None
        }
    }
}

pub open spec fn dec_nums(j: JsonV) -> Option<Seq<JNumV>> {
    match j {
        JsonV::Arr(s) => dec_num_seq(s),
        _ => None,
    }
}

pub open spec fn dec_alignment_seq(s: Seq<JsonV>) -> Option<Seq<Alignment>>
    decreases s,
{
    if s.len() == 0 {
        Some(Seq::empty())
    } else {
        let init = dec_alignment_seq(s.subrange(0, s.len() - 1));
        let last = dec_alignment(s[s.len() - 1]);
        if init is Some && last is Some {
            Some(init.unwrap().push(last.unwrap()))
        } else {
            None
        }
    }
}

pub open spec fn dec_alignments(j: JsonV) -> Option<Seq<Alignment>> {
    match j {
        JsonV::Arr(s) => dec_alignment_seq(s),
        _ => None,
    }
}

pub open spec fn dec_list_attributes(j: JsonV) -> Option<ListAttributesV> {
    match j {
        JsonV::Arr(p) => if p.len() == 3 {
            match (dec_int(p[0]), dec_list_number_style(p[1]), dec_list_number_delim(p[2])) {
                (Some(a), Some(b), Some(c)) => Some((a, b, c)),
                _ => None,
            }
        } else {
            None
        },
        _ => None,
    }
}

pub open spec fn dec_inline(j: JsonV) -> Option<InlineV>
    decreases j, 3int,
{
    match j {
        JsonV::Obj(e) => if e.len() == 1 {
            let n = e[0].0;
            let c = e[0].1;
            if n == "Str"@ {
                match dec_str(c) {
                    Some(s) => Some(InlineV::Str(s)),
                    None => None,
                }
            } else if n == "Emph"@ {
                match dec_inlines(c) {
                    Some(v) => Some(InlineV::Emph(v)),
                    None => None,
                }
            } else if n == "Strong"@ {
                match dec_inlines(c) {
                    Some(v) => Some(InlineV::Strong(v)),
                    None => None,
                }
            } else if n == "Strikeout"@ {
                match dec_inlines(c) {
                    Some(v) => Some(InlineV::Strikeout(v)),
                    None => None,
                }
            } else if n == "Superscript"@ {
                match dec_inlines(c) {
                    Some(v) => Some(InlineV::Superscript(v)),
                    None => None,
                }
            } else if n == "Subscript"@ {
                match dec_inlines(c) {
                    Some(v) => Some(InlineV::Subscript(v)),
                    None => None,
                }
            } else if n == "SmallCaps"@ {
                match dec_inlines(c) {
                    Some(v) => Some(InlineV::SmallCaps(v)),
                    None => None,
                }
            } else if n == "Quoted"@ {
                match c {
                    JsonV::Arr(p) => if p.len() == 2 {
                        match (dec_quote_type(p[0]), dec_inlines(p[1])) {
                            (Some(q), Some(v)) => Some(InlineV::Quoted(q, v)),
                            _ => None,
                        }
                    } else {
                        None
                    },
                    _ => None,
                }
            } else if n == "Cite"@ {
                match c {
                    JsonV::Arr(p) => if p.len() == 2 {
                        match (dec_citations(p[0]), dec_inlines(p[1])) {
                            (Some(cs), Some(v)) => Some(InlineV::Cite(cs, v)),
                            _ => None,
                        }
                    } else {
                        None
                    },
                    _ => None,
                }
            } else if n == "Code"@ {
                match c {
                    JsonV::Arr(p) => if p.len() == 2 {
                        match (dec_attr(p[0]), dec_str(p[1])) {
                            (Some(a), Some(s)) => Some(InlineV::Code(a, s)),
                            _ => None,
                        }
                    } else {
                        None
                    },
                    _ => None,
                }
            } else if n == "Space"@ {
                if c == unit_payload() {
                    Some(InlineV::Space)
                } else {
                    None
                }
            } else if n == "LineBreak"@ {
                if c == unit_payload() {
                    Some(InlineV::LineBreak)
                } else {
                    None
                }
            } else if n == "Math"@ {
                match c {
                    JsonV::Arr(p) => if p.len() == 2 {
                        match (dec_math_type(p[0]), dec_str(p[1])) {
                            (Some(m), Some(s)) => Some(InlineV::Math(m, s)),
                            _ => None,
                        }
                    } else {
                        None
                    },
                    _ => None,
                }
            } else if n == "RawInline"@ {
                match c {
                    JsonV::Arr(p) => if p.len() == 2 {
                        match (dec_str(p[0]), dec_str(p[1])) {
                            (Some(f), Some(s)) => Some(InlineV::RawInline(f, s)),
                            _ => None,
                        }
                    } else {
                        None
                    },
                    _ => None,
                }
            } else if n == "Link"@ {
                match c {
                    JsonV::Arr(p) => if p.len() == 2 {
                        match (dec_inlines(p[0]), dec_target(p[1])) {
                            (Some(v), Some(t)) => Some(InlineV::Link(v, t)),
                            _ => None,
                        }
                    } else {
                        None
                    },
                    _ => None,
                }
            } else if n == "Image"@ {
                match c {
                    JsonV::Arr(p) => if p.len() == 2 {
                        match (dec_inlines(p[0]), dec_target(p[1])) {
                            (Some(v), Some(t)) => Some(InlineV::Image(v, t)),
                            _ => None,
                        }
                    } else {
                        None
                    },
                    _ => None,
                }
            } else if n == "Note"@ {
                match dec_blocks(c) {
                    Some(bs) => Some(InlineV::Note(bs)),
                    None => None,
                }
            } else if n == "Span"@ {
                match c {
                    JsonV::Arr(p) => if p.len() == 2 {
                        match (dec_attr(p[0]), dec_inlines(p[1])) {
                            (Some(a), Some(v)) => Some(InlineV::Span(a, v)),
                            _ => None,
                        }
                    } else {
                        None
                    },
                    _ => None,
                }
            } else {
                None
            }
        } else {
            None
        },
        _ => None,
    }
}

pub open spec fn dec_inline_seq(s: Seq<JsonV>) -> Option<Seq<InlineV>>
    decreases s, 0int,
{
    if s.len() == 0 {
        Some(Seq::empty())
    } else {
        let init = dec_inline_seq(s.subrange(0, s.len() - 1));
        let last = dec_inline(s[s.len() - 1]);
        if init is Some && last is Some {
            Some(init.unwrap().push(last.unwrap()))
        } else {
            None
        }
    }
}

pub open spec fn dec_inlines(j: JsonV) -> Option<Seq<InlineV>>
    decreases j, 2int,
{
    match j {
        JsonV::Arr(s) => dec_inline_seq(s),
        _ => None,
    }
}

pub open spec fn dec_citation(j: JsonV) -> Option<CitationV>
    decreases j, 3int,
{
    match j {
        JsonV::Obj(e) => if e.len() == 6 && 0 <= key_at(e, "citationId"@) < e.len() && 0 <= key_at(
            e,
            "citationPrefix"@,
        ) < e.len() && 0 <= key_at(e, "citationSuffix"@) < e.len() && 0 <= key_at(
            e,
            "citationMode"@,
        ) < e.len() && 0 <= key_at(e, "citationNoteNum"@) < e.len() && 0 <= key_at(
            e,
            "citationHash"@,
        ) < e.len() {
            let vid = dec_str(e[key_at(e, "citationId"@)].1);
            let vpre = dec_inlines(e[key_at(e, "citationPrefix"@)].1);
            let vsuf = dec_inlines(e[key_at(e, "citationSuffix"@)].1);
            let vmode = dec_citation_mode(e[key_at(e, "citationMode"@)].1);
            let vnum = dec_int(e[key_at(e, "citationNoteNum"@)].1);
            let vhash = dec_int(e[key_at(e, "citationHash"@)].1);
            if vid is Some && vpre is Some && vsuf is Some && vmode is Some && vnum is Some
                && vhash is Some {
                Some(
                    CitationV {
                        id: vid.unwrap(),
                        prefix: vpre.unwrap(),
                        suffix: vsuf.unwrap(),
                        mode: vmode.unwrap(),
                        note_num: vnum.unwrap(),
                        hash: vhash.unwrap(),
                    },
                )
            } else {
                None
            }
        } else {
            None
        },
        _ => None,
    }
}

pub open spec fn dec_citation_seq(s: Seq<JsonV>) -> Option<Seq<CitationV>>
    decreases s, 0int,
{
    if s.len() == 0 {
        Some(Seq::empty())
    } else {
        let init = dec_citation_seq(s.subrange(0, s.len() - 1));
        let last = dec_citation(s[s.len() - 1]);
        if init is Some && last is Some {
            Some(init.unwrap().push(last.unwrap()))
        } else {
            None
        }
    }
}

pub open spec fn dec_citations(j: JsonV) -> Option<Seq<CitationV>>
    decreases j, 2int,
{
    match j {
        JsonV::Arr(s) => dec_citation_seq(s),
        _ => None,
    }
}

pub open spec fn dec_block(j: JsonV) -> Option<BlockV>
    decreases j, 3int,
{
    match j {
        JsonV::Obj(e) => if e.len() == 1 {
            let n = e[0].0;
            let c = e[0].1;
            if n == "Plain"@ {
                match dec_inlines(c) {
                    Some(v) => Some(BlockV::Plain(v)),
                    None => None,
                }
            } else if n == "Para"@ {
                match dec_inlines(c) {
                    Some(v) => Some(BlockV::Para(v)),
                    None => None,
                }
            } else if n == "CodeBlock"@ {
                match c {
                    JsonV::Arr(p) => if p.len() == 2 {
                        match (dec_attr(p[0]), dec_str(p[1])) {
                            (Some(a), Some(s)) => Some(BlockV::CodeBlock(a, s)),
                            _ => None,
                        }
                    } else {
                        None
                    },
                    _ => None,
                }
            } else if n == "RawBlock"@ {
                match c {
                    JsonV::Arr(p) => if p.len() == 2 {
                        match (dec_str(p[0]), dec_str(p[1])) {
                            (Some(f), Some(s)) => Some(BlockV::RawBlock(f, s)),
                            _ => None,
                        }
                    } else {
                        None
                    },
                    _ => None,
                }
            } else if n == "BlockQuote"@ {
                match dec_blocks(c) {
                    Some(v) => Some(BlockV::BlockQuote(v)),
                    None => None,
                }
            } else if n == "OrderedList"@ {
                match c {
                    JsonV::Arr(p) => if p.len() == 2 {
                        match (dec_list_attributes(p[0]), dec_items(p[1])) {
                            (Some(la), Some(items)) => Some(BlockV::OrderedList(la, items)),
                            _ => None,
                        }
                    } else {
                        None
                    },
                    _ => None,
                }
            } else if n == "BulletList"@ {
                match dec_items(c) {
                    Some(items) => Some(BlockV::BulletList(items)),
                    None => None,
                }
            } else if n == "DefinitionList"@ {
                match dec_defs(c) {
                    Some(defs) => Some(BlockV::DefinitionList(defs)),
                    None => None,
                }
            } else if n == "Header"@ {
                match c {
                    JsonV::Arr(p) => if p.len() == 3 {
                        match (dec_int(p[0]), dec_attr(p[1]), dec_inlines(p[2])) {
                            (Some(l), Some(a), Some(v)) => Some(BlockV::Header(l, a, v)),
                            _ => None,
                        }
                    } else {
                        None
                    },
                    _ => None,
                }
            } else if n == "HorizontalRule"@ {
                if c == unit_payload() {
                    Some(BlockV::HorizontalRule)
                } else {
                    None
                }
            } else if n == "Table"@ {
                match c {
                    JsonV::Arr(p) => if p.len() == 5 {
                        let vcap = dec_inlines(p[0]);
                        let val = dec_alignments(p[1]);
                        let vw = dec_nums(p[2]);
                        let vhd = dec_items(p[3]);
                        let vrows = dec_rows(p[4]);
                        if vcap is Some && val is Some && vw is Some && vhd is Some
                            && vrows is Some {
                            Some(
                                BlockV::Table(
                                    vcap.unwrap(),
                                    val.unwrap(),
                                    vw.unwrap(),
                                    vhd.unwrap(),
                                    vrows.unwrap(),
                                ),
                            )
                        } else {
                            None
                        }
                    } else {
                        None
                    },
                    _ => None,
                }
            } else if n == "Div"@ {
                match c {
                    JsonV::Arr(p) => if p.len() == 2 {
                        match (dec_attr(p[0]), dec_blocks(p[1])) {
                            (Some(a), Some(v)) => Some(BlockV::Div(a, v)),
                            _ => None,
                        }
                    } else {
                        None
                    },
                    _ => None,
                }
            } else if n == "Null"@ {
                if c == unit_payload() {
                    Some(BlockV::Null)
                } else {
                    None
                }
            } else {
                None
            }
        } else {
            None
        },
        _ => None,
    }
}

pub open spec fn dec_block_seq(s: Seq<JsonV>) -> Option<Seq<BlockV>>
    decreases s, 0int,
{
    if s.len() == 0 {
        Some(Seq::empty())
    } else {
        let init = dec_block_seq(s.subrange(0, s.len() - 1));
        let last = dec_block(s[s.len() - 1]);
        if init is Some && last is Some {
            Some(init.unwrap().push(last.unwrap()))
        } else {
            None
        }
    }
}

pub open spec fn dec_blocks(j: JsonV) -> Option<Seq<BlockV>>
    decreases j, 2int,
{
    match j {
        JsonV::Arr(s) => dec_block_seq(s),
        _ => None,
    }
}

pub open spec fn dec_item_seq(s: Seq<JsonV>) -> Option<Seq<Seq<BlockV>>>
    decreases s, 3int,
{
    if s.len() == 0 {
        Some(Seq::empty())
    } else {
        let init = dec_item_seq(s.subrange(0, s.len() - 1));
        let last = dec_blocks(s[s.len() - 1]);
        if init is Some && last is Some {
            Some(init.unwrap().push(last.unwrap()))
        } else {
            None
        }
    }
}

pub open spec fn dec_items(j: JsonV) -> Option<Seq<Seq<BlockV>>>
    decreases j, 4int,
{
    match j {
        JsonV::Arr(s) => dec_item_seq(s),
        _ => None,
    }
}

pub open spec fn dec_row_seq(s: Seq<JsonV>) -> Option<Seq<Seq<Seq<BlockV>>>>
    decreases s, 5int,
{
    if s.len() == 0 {
        Some(Seq::empty())
    } else {
        let init = dec_row_seq(s.subrange(0, s.len() - 1));
        let last = dec_items(s[s.len() - 1]);
        if init is Some && last is Some {
            Some(init.unwrap().push(last.unwrap()))
        } else {
            None
        }
    }
}

pub open spec fn dec_rows(j: JsonV) -> Option<Seq<Seq<Seq<BlockV>>>>
    decreases j, 6int,
{
    match j {
        JsonV::Arr(s) => dec_row_seq(s),
        _ => None,
    }
}

pub open spec fn dec_def(j: JsonV) -> Option<(Seq<InlineV>, Seq<Seq<BlockV>>)>
    decreases j, 5int,
{
    match j {
        JsonV::Arr(p) => if p.len() == 2 {
            match (dec_inlines(p[0]), dec_items(p[1])) {
                (Some(t), Some(ds)) => Some((t, ds)),
                _ => None,
            }
        } else {
            None
        },
        _ => None,
    }
}

pub open spec fn dec_def_seq(s: Seq<JsonV>) -> Option<Seq<(Seq<InlineV>, Seq<Seq<BlockV>>)>>
    decreases s, 6int,
{
    if s.len() == 0 {
        Some(Seq::empty())
    } else {
        let init = dec_def_seq(s.subrange(0, s.len() - 1));
        let last = dec_def(s[s.len() - 1]);
        if init is Some && last is Some {
            Some(init.unwrap().push(last.unwrap()))
        } else {
            None
        }
    }
}

pub open spec fn dec_defs(j: JsonV) -> Option<Seq<(Seq<InlineV>, Seq<Seq<BlockV>>)>>
    decreases j, 7int,
{
    match j {
        JsonV::Arr(s) => dec_def_seq(s),
        _ => None,
    }
}

pub open spec fn dec_metavalue(j: JsonV) -> Option<MetaValueV>
    decreases j, 3int,
{
    match j {
        JsonV::Obj(e) => if e.len() == 1 {
            let n = e[0].0;
            let c = e[0].1;
            if n == "MetaMap"@ {
                match c {
                    JsonV::Obj(m) => match dec_entry_seq(m) {
                        Some(es) => Some(MetaValueV::MetaMap(es)),
                        None => None,
                    },
                    _ => None,
                }
            } else if n == "MetaList"@ {
                match c {
                    JsonV::Arr(s) => match dec_metavalue_seq(s) {
                        Some(v) => Some(MetaValueV::MetaList(v)),
                        None => None,
                    },
                    _ => None,
                }
            } else if n == "MetaBool"@ {
                match dec_bool(c) {
                    Some(b) => Some(MetaValueV::MetaBool(b)),
                    None => None,
                }
            } else if n == "MetaString"@ {
                match dec_str(c) {
                    Some(s) => Some(MetaValueV::MetaString(s)),
                    None => None,
                }
            } else if n == "MetaInlines"@ {
                match dec_inlines(c) {
                    Some(v) => Some(MetaValueV::MetaInlines(v)),
                    None => None,
                }
            } else if n == "MetaBlocks"@ {
                match dec_blocks(c) {
                    Some(v) => Some(MetaValueV::MetaBlocks(v)),
                    None => None,
                }
            } else {
                None
            }
        } else {
            None
        },
        _ => None,
    }
}

pub open spec fn dec_metavalue_seq(s: Seq<JsonV>) -> Option<Seq<MetaValueV>>
    decreases s, 0int,
{
    if s.len() == 0 {
        Some(Seq::empty())
    } else {
        let init = dec_metavalue_seq(s.subrange(0, s.len() - 1));
        let last = dec_metavalue(s[s.len() - 1]);
        if init is Some && last is Some {
            Some(init.unwrap().push(last.unwrap()))
        } else {
            None
        }
    }
}

/// Metadata-map entries: keys kept, values decoded.
pub open spec fn dec_entry_seq(s: Seq<(Seq<char>, JsonV)>) -> Option<Seq<(Seq<char>, MetaValueV)>>
    decreases s, 0int,
{
    if s.len() == 0 {
        Some(Seq::empty())
    } else {
        let init = dec_entry_seq(s.subrange(0, s.len() - 1));
        let last = dec_metavalue(s[s.len() - 1].1);
        if init is Some && last is Some {
            Some(init.unwrap().push((s[s.len() - 1].0, last.unwrap())))
        } else {
            None
        }
    }
}

pub open spec fn dec_meta(j: JsonV) -> Option<Seq<(Seq<char>, MetaValueV)>>
    decreases j, 4int,
{
    match j {
        JsonV::Obj(e) => if e.len() == 1 && e[0].0 == "unMeta"@ {
            match e[0].1 {
                JsonV::Obj(m) => dec_entry_seq(m),
                _ => None,
            }
        } else {
            None
        },
        _ => None,
    }
}

/// The whole document: a two-element array of metadata and blocks.
pub open spec fn dec_pandoc(j: JsonV) -> Option<PandocV>
    decreases j, 5int,
{
    match j {
        JsonV::Arr(p) => if p.len() == 2 {
            match (dec_meta(p[0]), dec_blocks(p[1])) {
                (Some(m), Some(bs)) => Some(PandocV { meta: m, blocks: bs }),
                _ => None,
            }
        } else {
            None
        },
        _ => None,
    }
}

} // verus!

verus! {

/// `dec_str_seq` succeeds exactly when every element decodes, elementwise.
pub proof fn lemma_dec_str_seq(s: Seq<JsonV>)
    ensures
        match dec_str_seq(s) {
            Some(r) => r.len() == s.len() && forall|i: int|
                0 <= i < s.len() ==> (#[trigger] dec_str(s[i])) == Some(r[i]),
            None => exists|i: int| 0 <= i < s.len() && (#[trigger] dec_str(s[i])) is None,
        },
    decreases s.len(),
{
    if s.len() > 0 {
        let pre = s.subrange(0, s.len() - 1);
        lemma_dec_str_seq(pre);
        assert(forall|i: int| 0 <= i < pre.len() ==> pre[i] == s[i]);
        if dec_str_seq(s) is None && dec_str_seq(pre) is Some {
            assert(dec_str(s[s.len() - 1]) is None);
        }
    }
}

/// `dec_pair_seq` succeeds exactly when every element decodes, elementwise.
pub proof fn lemma_dec_pair_seq(s: Seq<JsonV>)
    ensures
        match dec_pair_seq(s) {
            Some(r) => r.len() == s.len() && forall|i: int|
                0 <= i < s.len() ==> (#[trigger] dec_pair(s[i])) == Some(r[i]),
            None => exists|i: int| 0 <= i < s.len() && (#[trigger] dec_pair(s[i])) is None,
        },
    decreases s.len(),
{
    if s.len() > 0 {
        let pre = s.subrange(0, s.len() - 1);
        lemma_dec_pair_seq(pre);
        assert(forall|i: int| 0 <= i < pre.len() ==> pre[i] == s[i]);
        if dec_pair_seq(s) is None && dec_pair_seq(pre) is Some {
            assert(dec_pair(s[s.len() - 1]) is None);
        }
    }
}

/// `dec_num_seq` succeeds exactly when every element decodes, elementwise.
pub proof fn lemma_dec_num_seq(s: Seq<JsonV>)
    ensures
        match dec_num_seq(s) {
            Some(r) => r.len() == s.len() && forall|i: int|
                0 <= i < s.len() ==> (#[trigger] dec_num(s[i])) == Some(r[i]),
            None => exists|i: int| 0 <= i < s.len() && (#[trigger] dec_num(s[i])) is None,
        },
    decreases s.len(),
{
    if s.len() > 0 {
        let pre = s.subrange(0, s.len() - 1);
        lemma_dec_num_seq(pre);
        assert(forall|i: int| 0 <= i < pre.len() ==> pre[i] == s[i]);
        if dec_num_seq(s) is None && dec_num_seq(pre) is Some {
            assert(dec_num(s[s.len() - 1]) is None);
        }
    }
}

/// `dec_alignment_seq` succeeds exactly when every element decodes, elementwise.
pub proof fn lemma_dec_alignment_seq(s: Seq<JsonV>)
    ensures
        match dec_alignment_seq(s) {
            Some(r) => r.len() == s.len() && forall|i: int|
                0 <= i < s.len() ==> (#[trigger] dec_alignment(s[i])) == Some(r[i]),
            None => exists|i: int| 0 <= i < s.len() && (#[trigger] dec_alignment(s[i])) is None,
        },
    decreases s.len(),
{
    if s.len() > 0 {
        let pre = s.subrange(0, s.len() - 1);
        lemma_dec_alignment_seq(pre);
        assert(forall|i: int| 0 <= i < pre.len() ==> pre[i] == s[i]);
        if dec_alignment_seq(s) is None && dec_alignment_seq(pre) is Some {
            assert(dec_alignment(s[s.len() - 1]) is None);
        }
    }
}

/// `dec_inline_seq` succeeds exactly when every element decodes, elementwise.
pub proof fn lemma_dec_inline_seq(s: Seq<JsonV>)
    ensures
        match dec_inline_seq(s) {
            Some(r) => r.len() == s.len() && forall|i: int|
                0 <= i < s.len() ==> (#[trigger] dec_inline(s[i])) == Some(r[i]),
            None => exists|i: int| 0 <= i < s.len() && (#[trigger] dec_inline(s[i])) is None,
        },
    decreases s.len(),
{
    if s.len() > 0 {
        let pre = s.subrange(0, s.len() - 1);
        lemma_dec_inline_seq(pre);
        assert(forall|i: int| 0 <= i < pre.len() ==> pre[i] == s[i]);
        if dec_inline_seq(s) is None && dec_inline_seq(pre) is Some {
            assert(dec_inline(s[s.len() - 1]) is None);
        }
    }
}

/// `dec_citation_seq` succeeds exactly when every element decodes, elementwise.
pub proof fn lemma_dec_citation_seq(s: Seq<JsonV>)
    ensures
        match dec_citation_seq(s) {
            Some(r) => r.len() == s.len() && forall|i: int|
                0 <= i < s.len() ==> (#[trigger] dec_citation(s[i])) == Some(r[i]),
            None => exists|i: int| 0 <= i < s.len() && (#[trigger] dec_citation(s[i])) is None,
        },
    decreases s.len(),
{
    if s.len() > 0 {
        let pre = s.subrange(0, s.len() - 1);
        lemma_dec_citation_seq(pre);
        assert(forall|i: int| 0 <= i < pre.len() ==> pre[i] == s[i]);
        if dec_citation_seq(s) is None && dec_citation_seq(pre) is Some {
            assert(dec_citation(s[s.len() - 1]) is None);
        }
    }
}

/// `dec_block_seq` succeeds exactly when every element decodes, elementwise.
pub proof fn lemma_dec_block_seq(s: Seq<JsonV>)
    ensures
        match dec_block_seq(s) {
            Some(r) => r.len() == s.len() && forall|i: int|
                0 <= i < s.len() ==> (#[trigger] dec_block(s[i])) == Some(r[i]),
            None => exists|i: int| 0 <= i < s.len() && (#[trigger] dec_block(s[i])) is None,
        },
    decreases s.len(),
{
    if s.len() > 0 {
        let pre = s.subrange(0, s.len() - 1);
        lemma_dec_block_seq(pre);
        assert(forall|i: int| 0 <= i < pre.len() ==> pre[i] == s[i]);
        if dec_block_seq(s) is None && dec_block_seq(pre) is Some {
            assert(dec_block(s[s.len() - 1]) is None);
        }
    }
}

/// `dec_item_seq` succeeds exactly when every element decodes, elementwise.
pub proof fn lemma_dec_item_seq(s: Seq<JsonV>)
    ensures
        match dec_item_seq(s) {
            Some(r) => r.len() == s.len() && forall|i: int|
                0 <= i < s.len() ==> (#[trigger] dec_blocks(s[i])) == Some(r[i]),
            None => exists|i: int| 0 <= i < s.len() && (#[trigger] dec_blocks(s[i])) is None,
        },
    decreases s.len(),
{
    if s.len() > 0 {
        let pre = s.subrange(0, s.len() - 1);
        lemma_dec_item_seq(pre);
        assert(forall|i: int| 0 <= i < pre.len() ==> pre[i] == s[i]);
        if dec_item_seq(s) is None && dec_item_seq(pre) is Some {
            assert(dec_blocks(s[s.len() - 1]) is None);
        }
    }
}

/// `dec_row_seq` succeeds exactly when every element decodes, elementwise.
pub proof fn lemma_dec_row_seq(s: Seq<JsonV>)
    ensures
        match dec_row_seq(s) {
            Some(r) => r.len() == s.len() && forall|i: int|
                0 <= i < s.len() ==> (#[trigger] dec_items(s[i])) == Some(r[i]),
            None => exists|i: int| 0 <= i < s.len() && (#[trigger] dec_items(s[i])) is None,
        },
    decreases s.len(),
{
    if s.len() > 0 {
        let pre = s.subrange(0, s.len() - 1);
        lemma_dec_row_seq(pre);
        assert(forall|i: int| 0 <= i < pre.len() ==> pre[i] == s[i]);
        if dec_row_seq(s) is None && dec_row_seq(pre) is Some {
            assert(dec_items(s[s.len() - 1]) is None);
        }
    }
}

/// `dec_def_seq` succeeds exactly when every element decodes, elementwise.
pub proof fn lemma_dec_def_seq(s: Seq<JsonV>)
    ensures
        match dec_def_seq(s) {
            Some(r) => r.len() == s.len() && forall|i: int|
                0 <= i < s.len() ==> (#[trigger] dec_def(s[i])) == Some(r[i]),
            None => exists|i: int| 0 <= i < s.len() && (#[trigger] dec_def(s[i])) is None,
        },
    decreases s.len(),
{
    if s.len() > 0 {
        let pre = s.subrange(0, s.len() - 1);
        lemma_dec_def_seq(pre);
        assert(forall|i: int| 0 <= i < pre.len() ==> pre[i] == s[i]);
        if dec_def_seq(s) is None && dec_def_seq(pre) is Some {
            assert(dec_def(s[s.len() - 1]) is None);
        }
    }
}

/// `dec_metavalue_seq` succeeds exactly when every element decodes, elementwise.
pub proof fn lemma_dec_metavalue_seq(s: Seq<JsonV>)
    ensures
        match dec_metavalue_seq(s) {
            Some(r) => r.len() == s.len() && forall|i: int|
                0 <= i < s.len() ==> (#[trigger] dec_metavalue(s[i])) == Some(r[i]),
            None => exists|i: int| 0 <= i < s.len() && (#[trigger] dec_metavalue(s[i])) is None,
        },
    decreases s.len(),
{
    if s.len() > 0 {
        let pre = s.subrange(0, s.len() - 1);
        lemma_dec_metavalue_seq(pre);
        assert(forall|i: int| 0 <= i < pre.len() ==> pre[i] == s[i]);
        if dec_metavalue_seq(s) is None && dec_metavalue_seq(pre) is Some {
            assert(dec_metavalue(s[s.len() - 1]) is None);
        }
    }
}

/// `dec_entry_seq` succeeds exactly when every entry value decodes,
/// keys and order kept.
pub proof fn lemma_dec_entry_seq(s: Seq<(Seq<char>, JsonV)>)
    ensures
        match dec_entry_seq(s) {
            Some(r) => r.len() == s.len() && forall|i: int|
                0 <= i < s.len() ==> r[i].0 == s[i].0 && (#[trigger] dec_metavalue(s[i].1))
                    == Some(r[i].1),
            None => exists|i: int| 0 <= i < s.len() && (#[trigger] dec_metavalue(s[i].1)) is None,
        },
    decreases s.len(),
{
    if s.len() > 0 {
        let pre = s.subrange(0, s.len() - 1);
        lemma_dec_entry_seq(pre);
        assert(forall|i: int| 0 <= i < pre.len() ==> pre[i] == s[i]);
        if dec_entry_seq(s) is None && dec_entry_seq(pre) is Some {
            assert(dec_metavalue(s[s.len() - 1].1) is None);
        }
    }
}

} // verus!

verus! {

/// Whether `j` decodes a metadata map: an object of decodable values.
pub open spec fn dec_mvmap(j: JsonV) -> Option<Seq<(Seq<char>, MetaValueV)>>
    decreases j, 4int,
{
    match j {
        JsonV::Obj(m) => dec_entry_seq(m),
        _ => None,
    }
}

/// Whether `j` decodes a metadata list: an array of decodable values.
pub open spec fn dec_mvs(j: JsonV) -> Option<Seq<MetaValueV>>
    decreases j, 4int,
{
    match j {
        JsonV::Arr(s) => dec_metavalue_seq(s),
        _ => None,
    }
}

/// The single entry of a one-key object, with the proof that the value
/// is structurally below the object.
fn get_tag<'a>(j: &'a Json) -> (r: Option<(&'a String, &'a Json)>)
    ensures
        match r {
            Some((n, c)) => un_tag(j@) == Some((n@, c@)) && decreases_to!(*j => *c),
            None => un_tag(j@) is None,
        },
{
    match j {
        Json::Obj(v) => {
            if v.len() == 1 {
                let n = &v[0].0;
                let c = &v[0].1;
                proof {
                    assert(entries_view(v@)[0] == (v@[0].0@, json_view(v@[0].1)));
                    assert(decreases_to!(*j => j->Obj_0));
                    assert(decreases_to!(*v => v@));
                    assert(decreases_to!(v@ => v@[0]));
                    assert(decreases_to!(v@[0] => v@[0].1));
                    assert(decreases_to!(*j => v@[0].1));
                }
                Some((n, c))
            } else {
                None
            }
        },
        _ => None,
    }
}

/// The elements of a two-element array, each structurally below it.
fn payload2<'a>(c: &'a Json) -> (r: Option<(&'a Json, &'a Json)>)
    ensures
        match r {
            Some((a, b)) => (c@ matches JsonV::Arr(p) && p.len() == 2 && p[0] == a@ && p[1]
                == b@) && decreases_to!(*c => *a) && decreases_to!(*c => *b),
            None => !(c@ matches JsonV::Arr(p) && p.len() == 2),
        },
{
    match c {
        Json::Arr(v) => {
            if v.len() == 2 {
                let a = &v[0];
                let b = &v[1];
                proof {
                    assert(jsons_view(v@)[0] == json_view(v@[0]));
                    assert(jsons_view(v@)[1] == json_view(v@[1]));
                    assert(decreases_to!(*c => c->Arr_0));
                    assert(decreases_to!(*v => v@));
                    assert(decreases_to!(v@ => v@[0]));
                    assert(decreases_to!(v@ => v@[1]));
                    assert(decreases_to!(*c => v@[0]));
                    assert(decreases_to!(*c => v@[1]));
                }
                Some((a, b))
            } else {
                None
            }
        },
        _ => None,
    }
}

/// The elements of a three-element array, each structurally below it.
fn payload3<'a>(c: &'a Json) -> (r: Option<(&'a Json, &'a Json, &'a Json)>)
    ensures
        match r {
            Some((a, b, d)) => (c@ matches JsonV::Arr(p) && p.len() == 3 && p[0] == a@ && p[1]
                == b@ && p[2] == d@) && decreases_to!(*c => *a) && decreases_to!(*c => *b)
                && decreases_to!(*c => *d),
            None => !(c@ matches JsonV::Arr(p) && p.len() == 3),
        },
{
    match c {
        Json::Arr(v) => {
            if v.len() == 3 {
                let a = &v[0];
                let b = &v[1];
                let d = &v[2];
                proof {
                    assert(jsons_view(v@)[0] == json_view(v@[0]));
                    assert(jsons_view(v@)[1] == json_view(v@[1]));
                    assert(jsons_view(v@)[2] == json_view(v@[2]));
                    assert(decreases_to!(*c => c->Arr_0));
                    assert(decreases_to!(*v => v@));
                    assert(decreases_to!(v@ => v@[0]));
                    assert(decreases_to!(v@ => v@[1]));
                    assert(decreases_to!(v@ => v@[2]));
                    assert(decreases_to!(*c => v@[0]));
                    assert(decreases_to!(*c => v@[1]));
                    assert(decreases_to!(*c => v@[2]));
                }
                Some((a, b, d))
            } else {
                None
            }
        },
        _ => None,
    }
}

/// The elements of a five-element array, each structurally below it.
fn payload5<'a>(c: &'a Json) -> (r: Option<(&'a Json, &'a Json, &'a Json, &'a Json, &'a Json)>)
    ensures
        match r {
            Some((a, b, d, e, f)) => (c@ matches JsonV::Arr(p) && p.len() == 5 && p[0] == a@
                && p[1] == b@ && p[2] == d@ && p[3] == e@ && p[4] == f@) && decreases_to!(
                *c => *a,
            ) && decreases_to!(*c => *b) && decreases_to!(*c => *d) && decreases_to!(*c => *e)
                && decreases_to!(*c => *f),
            None => !(c@ matches JsonV::Arr(p) && p.len() == 5),
        },
{
    match c {
        Json::Arr(v) => {
            if v.len() == 5 {
                let a = &v[0];
                let b = &v[1];
                let d = &v[2];
                let e = &v[3];
                let f = &v[4];
                proof {
                    assert(jsons_view(v@)[0] == json_view(v@[0]));
                    assert(jsons_view(v@)[1] == json_view(v@[1]));
                    assert(jsons_view(v@)[2] == json_view(v@[2]));
                    assert(jsons_view(v@)[3] == json_view(v@[3]));
                    assert(jsons_view(v@)[4] == json_view(v@[4]));
                    assert(decreases_to!(*c => c->Arr_0));
                    assert(decreases_to!(*v => v@));
                    assert(decreases_to!(v@ => v@[0]));
                    assert(decreases_to!(v@ => v@[1]));
                    assert(decreases_to!(v@ => v@[2]));
                    assert(decreases_to!(v@ => v@[3]));
                    assert(decreases_to!(v@ => v@[4]));
                    assert(decreases_to!(*c => v@[0]));
                    assert(decreases_to!(*c => v@[1]));
                    assert(decreases_to!(*c => v@[2]));
                    assert(decreases_to!(*c => v@[3]));
                    assert(decreases_to!(*c => v@[4]));
                }
                Some((a, b, d, e, f))
            } else {
                None
            }
        },
        _ => None,
    }
}

/// Whether `c` is the empty-array payload.
fn is_unit(c: &Json) -> (r: bool)
    ensures
        r == (c@ == unit_payload()),
{
    match c {
        Json::Arr(v) => {
            if v.len() == 0 {
                proof {
                    assert(jsons_view(v@) =~= Seq::<JsonV>::empty());
                }
                true
            } else {
                proof {
                    assert(jsons_view(v@).len() == v@.len());
                }
                false
            }
        },
        _ => false,
    }
}

pub fn decode_str(j: &Json) -> (r: Result<String, Error>)
    ensures
        match r {
            Ok(s) => dec_str(j@) == Some(s@),
            Err(e) => dec_str(j@) is None && (e matches Error::Decode(_, _)),
        },
{
    match j {
        Json::Str(s) => Ok(s.clone()),
        _ => Err(Error::decode(DecodeKind::BadShape)),
    }
}

pub fn decode_int(j: &Json) -> (r: Result<i64, Error>)
    ensures
        match r {
            Ok(i) => dec_int(j@) == Some(i),
            Err(e) => dec_int(j@) is None && (e matches Error::Decode(_, _)),
        },
{
    match j {
        Json::Num(n) => match n {
            JNum::Int(i) => Ok(*i),
            _ => Err(Error::decode(DecodeKind::BadShape)),
        },
        _ => Err(Error::decode(DecodeKind::BadShape)),
    }
}

pub fn decode_bool(j: &Json) -> (r: Result<bool, Error>)
    ensures
        match r {
            Ok(b) => dec_bool(j@) == Some(b),
            Err(e) => dec_bool(j@) is None && (e matches Error::Decode(_, _)),
        },
{
    match j {
        Json::Bool(b) => Ok(*b),
        _ => Err(Error::decode(DecodeKind::BadShape)),
    }
}

pub fn decode_num(j: &Json) -> (r: Result<JNum, Error>)
    ensures
        match r {
            Ok(n) => dec_num(j@) == Some(n@),
            Err(e) => dec_num(j@) is None && (e matches Error::Decode(_, _)),
        },
{
    match j {
        Json::Num(n) => Ok(n.dup()),
        _ => Err(Error::decode(DecodeKind::BadShape)),
    }
}

pub fn decode_alignment(j: &Json) -> (r: Result<Alignment, Error>)
    ensures
        match r {
            Ok(x) => dec_alignment(j@) == Some(x),
            Err(e) => dec_alignment(j@) is None && (e matches Error::Decode(_, _)),
        },
{
    match get_tag(j) {
        Some((name, c)) => {
            if is_unit(c) {
                if str_is(name, "AlignLeft") {
                    Ok(Alignment::AlignLeft)
                } else if str_is(name, "AlignRight") {
                    Ok(Alignment::AlignRight)
                } else if str_is(name, "AlignCenter") {
                    Ok(Alignment::AlignCenter)
                } else if str_is(name, "AlignDefault") {
                    Ok(Alignment::AlignDefault)
                } else {
                    Err(Error::decode(DecodeKind::UnknownVariant))
                }
            } else {
                Err(Error::decode(DecodeKind::BadArity))
            }
        },
        None => Err(Error::decode(DecodeKind::BadShape)),
    }
}

pub fn decode_list_number_style(j: &Json) -> (r: Result<ListNumberStyle, Error>)
    ensures
        match r {
            Ok(x) => dec_list_number_style(j@) == Some(x),
            Err(e) => dec_list_number_style(j@) is None && (e matches Error::Decode(_, _)),
        },
{
    match get_tag(j) {
        Some((name, c)) => {
            if is_unit(c) {
                if str_is(name, "DefaultStyle") {
                    Ok(ListNumberStyle::DefaultStyle)
                } else if str_is(name, "Example") {
                    Ok(ListNumberStyle::Example)
                } else if str_is(name, "Decimal") {
                    Ok(ListNumberStyle::Decimal)
                } else if str_is(name, "LowerRoman") {
                    Ok(ListNumberStyle::LowerRoman)
                } else if str_is(name, "UpperRoman") {
                    Ok(ListNumberStyle::UpperRoman)
                } else if str_is(name, "LowerAlpha") {
                    Ok(ListNumberStyle::LowerAlpha)
                } else if str_is(name, "UpperAlpha") {
                    Ok(ListNumberStyle::UpperAlpha)
                } else {
                    Err(Error::decode(DecodeKind::UnknownVariant))
                }
            } else {
                Err(Error::decode(DecodeKind::BadArity))
            }
        },
        None => Err(Error::decode(DecodeKind::BadShape)),
    }
}

pub fn decode_list_number_delim(j: &Json) -> (r: Result<ListNumberDelim, Error>)
    ensures
        match r {
            Ok(x) => dec_list_number_delim(j@) == Some(x),
            Err(e) => dec_list_number_delim(j@) is None && (e matches Error::Decode(_, _)),
        },
{
    match get_tag(j) {
        Some((name, c)) => {
            if is_unit(c) {
                if str_is(name, "DefaultDelim") {
                    Ok(ListNumberDelim::DefaultDelim)
                } else if str_is(name, "Period") {
                    Ok(ListNumberDelim::Period)
                } else if str_is(name, "OneParen") {
                    Ok(ListNumberDelim::OneParen)
                } else if str_is(name, "TwoParens") {
                    Ok(ListNumberDelim::TwoParens)
                } else {
                    Err(Error::decode(DecodeKind::UnknownVariant))
                }
            } else {
                Err(Error::decode(DecodeKind::BadArity))
            }
        },
        None => Err(Error::decode(DecodeKind::BadShape)),
    }
}

pub fn decode_quote_type(j: &Json) -> (r: Result<QuoteType, Error>)
    ensures
        match r {
            Ok(x) => dec_quote_type(j@) == Some(x),
            Err(e) => dec_quote_type(j@) is None && (e matches Error::Decode(_, _)),
        },
{
    match get_tag(j) {
        Some((name, c)) => {
            if is_unit(c) {
                if str_is(name, "SingleQuote") {
                    Ok(QuoteType::SingleQuote)
                } else if str_is(name, "DoubleQuote") {
                    Ok(QuoteType::DoubleQuote)
                } else {
                    Err(Error::decode(DecodeKind::UnknownVariant))
                }
            } else {
                Err(Error::decode(DecodeKind::BadArity))
            }
        },
        None => Err(Error::decode(DecodeKind::BadShape)),
    }
}

pub fn decode_math_type(j: &Json) -> (r: Result<MathType, Error>)
    ensures
        match r {
            Ok(x) => dec_math_type(j@) == Some(x),
            Err(e) => dec_math_type(j@) is None && (e matches Error::Decode(_, _)),
        },
{
    match get_tag(j) {
        Some((name, c)) => {
            if is_unit(c) {
                if str_is(name, "DisplayMath") {
                    Ok(MathType::DisplayMath)
                } else if str_is(name, "InlineMath") {
                    Ok(MathType::InlineMath)
                } else {
                    Err(Error::decode(DecodeKind::UnknownVariant))
                }
            } else {
                Err(Error::decode(DecodeKind::BadArity))
            }
        },
        None => Err(Error::decode(DecodeKind::BadShape)),
    }
}

pub fn decode_citation_mode(j: &Json) -> (r: Result<CitationMode, Error>)
    ensures
        match r {
            Ok(x) => dec_citation_mode(j@) == Some(x),
            Err(e) => dec_citation_mode(j@) is None && (e matches Error::Decode(_, _)),
        },
{
    match get_tag(j) {
        Some((name, c)) => {
            if is_unit(c) {
                if str_is(name, "AuthorInText") {
                    Ok(CitationMode::AuthorInText)
                } else if str_is(name, "SuppressAuthor") {
                    Ok(CitationMode::SuppressAuthor)
                } else if str_is(name, "NormalCitation") {
                    Ok(CitationMode::NormalCitation)
                } else {
                    Err(Error::decode(DecodeKind::UnknownVariant))
                }
            } else {
                Err(Error::decode(DecodeKind::BadArity))
            }
        },
        None => Err(Error::decode(DecodeKind::BadShape)),
    }
}

} // verus!

verus! {

#[verifier::loop_isolation(false)]
pub fn decode_strings(j: &Json) -> (r: Result<Vec<String>, Error>)
    ensures
        match r {
            Ok(xs) => dec_strs(j@) == Some(strings_view(xs@)),
            Err(e) => dec_strs(j@) is None && (e matches Error::Decode(_, _)),
        },
    decreases j, 1int,
{
    match j {
        Json::Arr(v) => {
            let ghost s = jsons_view(v@);
            let mut out: Vec<String> = Vec::new();
            let mut i: usize = 0;
            while i < v.len()
                invariant
                    0 <= i <= v.len(),
                    out@.len() == i,
                    forall|k: int| 0 <= k < i ==> (#[trigger] dec_str(s[k])) == Some(strings_view(out@)[k]),
                decreases v.len() - i,
            {
                proof {
                    assert(*j == Json::Arr(*v));
                    assert(decreases_to!(*j => j->Arr_0));
                    assert(decreases_to!(*v => v@));
                    assert(decreases_to!(v@ => v@[i as int]));
                    assert(decreases_to!(*j => v@[i as int]));
                }
                match decode_str(&v[i]) {
                    Ok(x) => {
                        let ghost xv = x@;
                        out.push(x);
                        proof {
                            assert(strings_view(out@)[i as int] == xv);
                            assert(s[i as int] == v@[i as int]@);
                        }
                    },
                    Err(e) => {
                        proof {
                            assert(dec_str(s[i as int]) is None);
                            lemma_dec_str_seq(s);
                            if dec_str_seq(s) is Some {
                                assert(false);
                            }
                        }
                        return Err(e);
                    },
                }
                i = i + 1;
            }
            proof {
                lemma_dec_str_seq(s);
                if dec_str_seq(s) is None {
                    let w = choose|k: int| 0 <= k < s.len() && (#[trigger] dec_str(s[k])) is None;
                    assert(false);
                }
                let r0 = dec_str_seq(s).unwrap();
                assert forall|k: int| 0 <= k < s.len() implies r0[k] == strings_view(out@)[k] by {
                    assert(dec_str(s[k]) == Some(strings_view(out@)[k]));
                }
                assert(r0 =~= strings_view(out@));
            }
            Ok(out)
        },
        _ => Err(Error::decode(DecodeKind::BadShape)),
    }
}

#[verifier::loop_isolation(false)]
pub fn decode_pairs(j: &Json) -> (r: Result<Vec<(String, String)>, Error>)
    ensures
        match r {
            Ok(xs) => dec_pairs(j@) == Some(pairs_view(xs@)),
            Err(e) => dec_pairs(j@) is None && (e matches Error::Decode(_, _)),
        },
    decreases j, 1int,
{
    match j {
        Json::Arr(v) => {
            let ghost s = jsons_view(v@);
            let mut out: Vec<(String, String)> = Vec::new();
            let mut i: usize = 0;
            while i < v.len()
                invariant
                    0 <= i <= v.len(),
                    out@.len() == i,
                    forall|k: int| 0 <= k < i ==> (#[trigger] dec_pair(s[k])) == Some(pairs_view(out@)[k]),
                decreases v.len() - i,
            {
                proof {
                    assert(*j == Json::Arr(*v));
                    assert(decreases_to!(*j => j->Arr_0));
                    assert(decreases_to!(*v => v@));
                    assert(decreases_to!(v@ => v@[i as int]));
                    assert(decreases_to!(*j => v@[i as int]));
                }
                match decode_pair(&v[i]) {
                    Ok(x) => {
                        let ghost xv = (x.0@, x.1@);
                        out.push(x);
                        proof {
                            assert(pairs_view(out@)[i as int] == xv);
                            assert(s[i as int] == v@[i as int]@);
                        }
                    },
                    Err(e) => {
                        proof {
                            assert(dec_pair(s[i as int]) is None);
                            lemma_dec_pair_seq(s);
                            if dec_pair_seq(s) is Some {
                                assert(false);
                            }
                        }
                        return Err(e);
                    },
                }
                i = i + 1;
            }
            proof {
                lemma_dec_pair_seq(s);
                if dec_pair_seq(s) is None {
                    let w = choose|k: int| 0 <= k < s.len() && (#[trigger] dec_pair(s[k])) is None;
                    assert(false);
                }
                let r0 = dec_pair_seq(s).unwrap();
                assert forall|k: int| 0 <= k < s.len() implies r0[k] == pairs_view(out@)[k] by {
                    assert(dec_pair(s[k]) == Some(pairs_view(out@)[k]));
                }
                assert(r0 =~= pairs_view(out@));
            }
            Ok(out)
        },
        _ => Err(Error::decode(DecodeKind::BadShape)),
    }
}

#[verifier::loop_isolation(false)]
pub fn decode_nums(j: &Json) -> (r: Result<Vec<JNum>, Error>)
    ensures
        match r {
            Ok(xs) => dec_nums(j@) == Some(nums_view(xs@)),
            Err(e) => dec_nums(j@) is None && (e matches Error::Decode(_, _)),
        },
    decreases j, 1int,
{
    match j {
        Json::Arr(v) => {
            let ghost s = jsons_view(v@);
            let mut out: Vec<JNum> = Vec::new();
            let mut i: usize = 0;
            while i < v.len()
                invariant
                    0 <= i <= v.len(),
                    out@.len() == i,
                    forall|k: int| 0 <= k < i ==> (#[trigger] dec_num(s[k])) == Some(nums_view(out@)[k]),
                decreases v.len() - i,
            {
                proof {
                    assert(*j == Json::Arr(*v));
                    assert(decreases_to!(*j => j->Arr_0));
                    assert(decreases_to!(*v => v@));
                    assert(decreases_to!(v@ => v@[i as int]));
                    assert(decreases_to!(*j => v@[i as int]));
                }
                match decode_num(&v[i]) {
                    Ok(x) => {
                        let ghost xv = x@;
                        out.push(x);
                        proof {
                            assert(nums_view(out@)[i as int] == xv);
                            assert(s[i as int] == v@[i as int]@);
                        }
                    },
                    Err(e) => {
                        proof {
                            assert(dec_num(s[i as int]) is None);
                            lemma_dec_num_seq(s);
                            if dec_num_seq(s) is Some {
                                assert(false);
                            }
                        }
                        return Err(e);
                    },
                }
                i = i + 1;
            }
            proof {
                lemma_dec_num_seq(s);
                if dec_num_seq(s) is None {
                    let w = choose|k: int| 0 <= k < s.len() && (#[trigger] dec_num(s[k])) is None;
                    assert(false);
                }
                let r0 = dec_num_seq(s).unwrap();
                assert forall|k: int| 0 <= k < s.len() implies r0[k] == nums_view(out@)[k] by {
                    assert(dec_num(s[k]) == Some(nums_view(out@)[k]));
                }
                assert(r0 =~= nums_view(out@));
            }
            Ok(out)
        },
        _ => Err(Error::decode(DecodeKind::BadShape)),
    }
}

#[verifier::loop_isolation(false)]
pub fn decode_alignments(j: &Json) -> (r: Result<Vec<Alignment>, Error>)
    ensures
        match r {
            Ok(xs) => dec_alignments(j@) == Some(xs@),
            Err(e) => dec_alignments(j@) is None && (e matches Error::Decode(_, _)),
        },
    decreases j, 1int,
{
    match j {
        Json::Arr(v) => {
            let ghost s = jsons_view(v@);
            let mut out: Vec<Alignment> = Vec::new();
            let mut i: usize = 0;
            while i < v.len()
                invariant
                    0 <= i <= v.len(),
                    out@.len() == i,
                    forall|k: int| 0 <= k < i ==> (#[trigger] dec_alignment(s[k])) == Some(out@[k]),
                decreases v.len() - i,
            {
                proof {
                    assert(*j == Json::Arr(*v));
                    assert(decreases_to!(*j => j->Arr_0));
                    assert(decreases_to!(*v => v@));
                    assert(decreases_to!(v@ => v@[i as int]));
                    assert(decreases_to!(*j => v@[i as int]));
                }
                match decode_alignment(&v[i]) {
                    Ok(x) => {
                        let ghost xv = x;
                        out.push(x);
                        proof {
                            assert(out@[i as int] == xv);
                            assert(s[i as int] == v@[i as int]@);
                        }
                    },
                    Err(e) => {
                        proof {
                            assert(dec_alignment(s[i as int]) is None);
                            lemma_dec_alignment_seq(s);
                            if dec_alignment_seq(s) is Some {
                                assert(false);
                            }
                        }
                        return Err(e);
                    },
                }
                i = i + 1;
            }
            proof {
                lemma_dec_alignment_seq(s);
                if dec_alignment_seq(s) is None {
                    let w = choose|k: int| 0 <= k < s.len() && (#[trigger] dec_alignment(s[k])) is None;
                    assert(false);
                }
                let r0 = dec_alignment_seq(s).unwrap();
                assert forall|k: int| 0 <= k < s.len() implies r0[k] == out@[k] by {
                    assert(dec_alignment(s[k]) == Some(out@[k]));
                }
                assert(r0 =~= out@);
            }
            Ok(out)
        },
        _ => Err(Error::decode(DecodeKind::BadShape)),
    }
}

#[verifier::loop_isolation(false)]
pub fn decode_inlines(j: &Json) -> (r: Result<Vec<Inline>, Error>)
    ensures
        match r {
            Ok(xs) => dec_inlines(j@) == Some(inlines_view(xs@)),
            Err(e) => dec_inlines(j@) is None && (e matches Error::Decode(_, _)),
        },
    decreases j, 2int,
{
    match j {
        Json::Arr(v) => {
            let ghost s = jsons_view(v@);
            let mut out: Vec<Inline> = Vec::new();
            let mut i: usize = 0;
            while i < v.len()
                invariant
                    0 <= i <= v.len(),
                    out@.len() == i,
                    forall|k: int| 0 <= k < i ==> (#[trigger] dec_inline(s[k])) == Some(inlines_view(out@)[k]),
                decreases v.len() - i,
            {
                proof {
                    assert(*j == Json::Arr(*v));
                    assert(decreases_to!(*j => j->Arr_0));
                    assert(decreases_to!(*v => v@));
                    assert(decreases_to!(v@ => v@[i as int]));
                    assert(decreases_to!(*j => v@[i as int]));
                }
                match decode_inline(&v[i]) {
                    Ok(x) => {
                        let ghost xv = x@;
                        out.push(x);
                        proof {
                            assert(inlines_view(out@)[i as int] == xv);
                            assert(s[i as int] == v@[i as int]@);
                        }
                    },
                    Err(e) => {
                        proof {
                            assert(dec_inline(s[i as int]) is None);
                            lemma_dec_inline_seq(s);
                            if dec_inline_seq(s) is Some {
                                assert(false);
                            }
                        }
                        return Err(e);
                    },
                }
                i = i + 1;
            }
            proof {
                lemma_dec_inline_seq(s);
                if dec_inline_seq(s) is None {
                    let w = choose|k: int| 0 <= k < s.len() && (#[trigger] dec_inline(s[k])) is None;
                    assert(false);
                }
                let r0 = dec_inline_seq(s).unwrap();
                assert forall|k: int| 0 <= k < s.len() implies r0[k] == inlines_view(out@)[k] by {
                    assert(dec_inline(s[k]) == Some(inlines_view(out@)[k]));
                }
                assert(r0 =~= inlines_view(out@));
            }
            Ok(out)
        },
        _ => Err(Error::decode(DecodeKind::BadShape)),
    }
}

#[verifier::loop_isolation(false)]
pub fn decode_citations(j: &Json) -> (r: Result<Vec<Citation>, Error>)
    ensures
        match r {
            Ok(xs) => dec_citations(j@) == Some(citations_view(xs@)),
            Err(e) => dec_citations(j@) is None && (e matches Error::Decode(_, _)),
        },
    decreases j, 2int,
{
    match j {
        Json::Arr(v) => {
            let ghost s = jsons_view(v@);
            let mut out: Vec<Citation> = Vec::new();
            let mut i: usize = 0;
            while i < v.len()
                invariant
                    0 <= i <= v.len(),
                    out@.len() == i,
                    forall|k: int| 0 <= k < i ==> (#[trigger] dec_citation(s[k])) == Some(citations_view(out@)[k]),
                decreases v.len() - i,
            {
                proof {
                    assert(*j == Json::Arr(*v));
                    assert(decreases_to!(*j => j->Arr_0));
                    assert(decreases_to!(*v => v@));
                    assert(decreases_to!(v@ => v@[i as int]));
                    assert(decreases_to!(*j => v@[i as int]));
                }
                match decode_citation(&v[i]) {
                    Ok(x) => {
                        let ghost xv = x@;
                        out.push(x);
                        proof {
                            assert(citations_view(out@)[i as int] == xv);
                            assert(s[i as int] == v@[i as int]@);
                        }
                    },
                    Err(e) => {
                        proof {
                            assert(dec_citation(s[i as int]) is None);
                            lemma_dec_citation_seq(s);
                            if dec_citation_seq(s) is Some {
                                assert(false);
                            }
                        }
                        return Err(e);
                    },
                }
                i = i + 1;
            }
            proof {
                lemma_dec_citation_seq(s);
                if dec_citation_seq(s) is None {
                    let w = choose|k: int| 0 <= k < s.len() && (#[trigger] dec_citation(s[k])) is None;
                    assert(false);
                }
                let r0 = dec_citation_seq(s).unwrap();
                assert forall|k: int| 0 <= k < s.len() implies r0[k] == citations_view(out@)[k] by {
                    assert(dec_citation(s[k]) == Some(citations_view(out@)[k]));
                }
                assert(r0 =~= citations_view(out@));
            }
            Ok(out)
        },
        _ => Err(Error::decode(DecodeKind::BadShape)),
    }
}

#[verifier::loop_isolation(false)]
pub fn decode_blocks(j: &Json) -> (r: Result<Vec<Block>, Error>)
    ensures
        match r {
            Ok(xs) => dec_blocks(j@) == Some(blocks_view(xs@)),
            Err(e) => dec_blocks(j@) is None && (e matches Error::Decode(_, _)),
        },
    decreases j, 2int,
{
    match j {
        Json::Arr(v) => {
            let ghost s = jsons_view(v@);
            let mut out: Vec<Block> = Vec::new();
            let mut i: usize = 0;
            while i < v.len()
                invariant
                    0 <= i <= v.len(),
                    out@.len() == i,
                    forall|k: int| 0 <= k < i ==> (#[trigger] dec_block(s[k])) == Some(blocks_view(out@)[k]),
                decreases v.len() - i,
            {
                proof {
                    assert(*j == Json::Arr(*v));
                    assert(decreases_to!(*j => j->Arr_0));
                    assert(decreases_to!(*v => v@));
                    assert(decreases_to!(v@ => v@[i as int]));
                    assert(decreases_to!(*j => v@[i as int]));
                }
                match decode_block(&v[i]) {
                    Ok(x) => {
                        let ghost xv = x@;
                        out.push(x);
                        proof {
                            assert(blocks_view(out@)[i as int] == xv);
                            assert(s[i as int] == v@[i as int]@);
                        }
                    },
                    Err(e) => {
                        proof {
                            assert(dec_block(s[i as int]) is None);
                            lemma_dec_block_seq(s);
                            if dec_block_seq(s) is Some {
                                assert(false);
                            }
                        }
                        return Err(e);
                    },
                }
                i = i + 1;
            }
            proof {
                lemma_dec_block_seq(s);
                if dec_block_seq(s) is None {
                    let w = choose|k: int| 0 <= k < s.len() && (#[trigger] dec_block(s[k])) is None;
                    assert(false);
                }
                let r0 = dec_block_seq(s).unwrap();
                assert forall|k: int| 0 <= k < s.len() implies r0[k] == blocks_view(out@)[k] by {
                    assert(dec_block(s[k]) == Some(blocks_view(out@)[k]));
                }
                assert(r0 =~= blocks_view(out@));
            }
            Ok(out)
        },
        _ => Err(Error::decode(DecodeKind::BadShape)),
    }
}

#[verifier::loop_isolation(false)]
pub fn decode_items(j: &Json) -> (r: Result<Vec<Vec<Block>>, Error>)
    ensures
        match r {
            Ok(xs) => dec_items(j@) == Some(items_view(xs@)),
            Err(e) => dec_items(j@) is None && (e matches Error::Decode(_, _)),
        },
    decreases j, 4int,
{
    match j {
        Json::Arr(v) => {
            let ghost s = jsons_view(v@);
            let mut out: Vec<Vec<Block>> = Vec::new();
            let mut i: usize = 0;
            while i < v.len()
                invariant
                    0 <= i <= v.len(),
                    out@.len() == i,
                    forall|k: int| 0 <= k < i ==> (#[trigger] dec_blocks(s[k])) == Some(items_view(out@)[k]),
                decreases v.len() - i,
            {
                proof {
                    assert(*j == Json::Arr(*v));
                    assert(decreases_to!(*j => j->Arr_0));
                    assert(decreases_to!(*v => v@));
                    assert(decreases_to!(v@ => v@[i as int]));
                    assert(decreases_to!(*j => v@[i as int]));
                }
                match decode_blocks(&v[i]) {
                    Ok(x) => {
                        let ghost xv = blocks_view(x@);
                        out.push(x);
                        proof {
                            assert(items_view(out@)[i as int] == xv);
                            assert(s[i as int] == v@[i as int]@);
                        }
                    },
                    Err(e) => {
                        proof {
                            assert(dec_blocks(s[i as int]) is None);
                            lemma_dec_item_seq(s);
                            if dec_item_seq(s) is Some {
                                assert(false);
                            }
                        }
                        return Err(e);
                    },
                }
                i = i + 1;
            }
            proof {
                lemma_dec_item_seq(s);
                if dec_item_seq(s) is None {
                    let w = choose|k: int| 0 <= k < s.len() && (#[trigger] dec_blocks(s[k])) is None;
                    assert(false);
                }
                let r0 = dec_item_seq(s).unwrap();
                assert forall|k: int| 0 <= k < s.len() implies r0[k] == items_view(out@)[k] by {
                    assert(dec_blocks(s[k]) == Some(items_view(out@)[k]));
                }
                assert(r0 =~= items_view(out@));
            }
            Ok(out)
        },
        _ => Err(Error::decode(DecodeKind::BadShape)),
    }
}

#[verifier::loop_isolation(false)]
pub fn decode_rows(j: &Json) -> (r: Result<Vec<Vec<TableCell>>, Error>)
    ensures
        match r {
            Ok(xs) => dec_rows(j@) == Some(rows_view(xs@)),
            Err(e) => dec_rows(j@) is None && (e matches Error::Decode(_, _)),
        },
    decreases j, 6int,
{
    match j {
        Json::Arr(v) => {
            let ghost s = jsons_view(v@);
            let mut out: Vec<Vec<TableCell>> = Vec::new();
            let mut i: usize = 0;
            while i < v.len()
                invariant
                    0 <= i <= v.len(),
                    out@.len() == i,
                    forall|k: int| 0 <= k < i ==> (#[trigger] dec_items(s[k])) == Some(rows_view(out@)[k]),
                decreases v.len() - i,
            {
                proof {
                    assert(*j == Json::Arr(*v));
                    assert(decreases_to!(*j => j->Arr_0));
                    assert(decreases_to!(*v => v@));
                    assert(decreases_to!(v@ => v@[i as int]));
                    assert(decreases_to!(*j => v@[i as int]));
                }
                match decode_items(&v[i]) {
                    Ok(x) => {
                        let ghost xv = items_view(x@);
                        out.push(x);
                        proof {
                            assert(rows_view(out@)[i as int] == xv);
                            assert(s[i as int] == v@[i as int]@);
                        }
                    },
                    Err(e) => {
                        proof {
                            assert(dec_items(s[i as int]) is None);
                            lemma_dec_row_seq(s);
                            if dec_row_seq(s) is Some {
                                assert(false);
                            }
                        }
                        return Err(e);
                    },
                }
                i = i + 1;
            }
            proof {
                lemma_dec_row_seq(s);
                if dec_row_seq(s) is None {
                    let w = choose|k: int| 0 <= k < s.len() && (#[trigger] dec_items(s[k])) is None;
                    assert(false);
                }
                let r0 = dec_row_seq(s).unwrap();
                assert forall|k: int| 0 <= k < s.len() implies r0[k] == rows_view(out@)[k] by {
                    assert(dec_items(s[k]) == Some(rows_view(out@)[k]));
                }
                assert(r0 =~= rows_view(out@));
            }
            Ok(out)
        },
        _ => Err(Error::decode(DecodeKind::BadShape)),
    }
}

#[verifier::loop_isolation(false)]
pub fn decode_defs(j: &Json) -> (r: Result<Vec<(Vec<Inline>, Vec<Vec<Block>>)>, Error>)
    ensures
        match r {
            Ok(xs) => dec_defs(j@) == Some(defs_view(xs@)),
            Err(e) => dec_defs(j@) is None && (e matches Error::Decode(_, _)),
        },
    decreases j, 7int,
{
    match j {
        Json::Arr(v) => {
            let ghost s = jsons_view(v@);
            let mut out: Vec<(Vec<Inline>, Vec<Vec<Block>>)> = Vec::new();
            let mut i: usize = 0;
            while i < v.len()
                invariant
                    0 <= i <= v.len(),
                    out@.len() == i,
                    forall|k: int| 0 <= k < i ==> (#[trigger] dec_def(s[k])) == Some(defs_view(out@)[k]),
                decreases v.len() - i,
            {
                proof {
                    assert(*j == Json::Arr(*v));
                    assert(decreases_to!(*j => j->Arr_0));
                    assert(decreases_to!(*v => v@));
                    assert(decreases_to!(v@ => v@[i as int]));
                    assert(decreases_to!(*j => v@[i as int]));
                }
                match decode_def(&v[i]) {
                    Ok(x) => {
                        let ghost xv = (inlines_view(x.0@), items_view(x.1@));
                        out.push(x);
                        proof {
                            assert(defs_view(out@)[i as int] == xv);
                            assert(s[i as int] == v@[i as int]@);
                        }
                    },
                    Err(e) => {
                        proof {
                            assert(dec_def(s[i as int]) is None);
                            lemma_dec_def_seq(s);
                            if dec_def_seq(s) is Some {
                                assert(false);
                            }
                        }
                        return Err(e);
                    },
                }
                i = i + 1;
            }
            proof {
                lemma_dec_def_seq(s);
                if dec_def_seq(s) is None {
                    let w = choose|k: int| 0 <= k < s.len() && (#[trigger] dec_def(s[k])) is None;
                    assert(false);
                }
                let r0 = dec_def_seq(s).unwrap();
                assert forall|k: int| 0 <= k < s.len() implies r0[k] == defs_view(out@)[k] by {
                    assert(dec_def(s[k]) == Some(defs_view(out@)[k]));
                }
                assert(r0 =~= defs_view(out@));
            }
            Ok(out)
        },
        _ => Err(Error::decode(DecodeKind::BadShape)),
    }
}

#[verifier::loop_isolation(false)]
pub fn decode_metalist(j: &Json) -> (r: Result<Vec<MetaValue>, Error>)
    ensures
        match r {
            Ok(xs) => dec_mvs(j@) == Some(metalist_view(xs@)),
            Err(e) => dec_mvs(j@) is None && (e matches Error::Decode(_, _)),
        },
    decreases j, 4int,
{
    match j {
        Json::Arr(v) => {
            let ghost s = jsons_view(v@);
            let mut out: Vec<MetaValue> = Vec::new();
            let mut i: usize = 0;
            while i < v.len()
                invariant
                    0 <= i <= v.len(),
                    out@.len() == i,
                    forall|k: int| 0 <= k < i ==> (#[trigger] dec_metavalue(s[k])) == Some(metalist_view(out@)[k]),
                decreases v.len() - i,
            {
                proof {
                    assert(*j == Json::Arr(*v));
                    assert(decreases_to!(*j => j->Arr_0));
                    assert(decreases_to!(*v => v@));
                    assert(decreases_to!(v@ => v@[i as int]));
                    assert(decreases_to!(*j => v@[i as int]));
                }
                match decode_metavalue(&v[i]) {
                    Ok(x) => {
                        let ghost xv = x@;
                        out.push(x);
                        proof {
                            assert(metalist_view(out@)[i as int] == xv);
                            assert(s[i as int] == v@[i as int]@);
                        }
                    },
                    Err(e) => {
                        proof {
                            assert(dec_metavalue(s[i as int]) is None);
                            lemma_dec_metavalue_seq(s);
                            if dec_metavalue_seq(s) is Some {
                                assert(false);
                            }
                        }
                        return Err(e);
                    },
                }
                i = i + 1;
            }
            proof {
                lemma_dec_metavalue_seq(s);
                if dec_metavalue_seq(s) is None {
                    let w = choose|k: int| 0 <= k < s.len() && (#[trigger] dec_metavalue(s[k])) is None;
                    assert(false);
                }
                let r0 = dec_metavalue_seq(s).unwrap();
                assert forall|k: int| 0 <= k < s.len() implies r0[k] == metalist_view(out@)[k] by {
                    assert(dec_metavalue(s[k]) == Some(metalist_view(out@)[k]));
                }
                assert(r0 =~= metalist_view(out@));
            }
            Ok(out)
        },
        _ => Err(Error::decode(DecodeKind::BadShape)),
    }
}

} // verus!

verus! {

pub fn decode_pair(j: &Json) -> (r: Result<(String, String), Error>)
    ensures
        match r {
            Ok(p) => dec_pair(j@) == Some((p.0@, p.1@)),
            Err(e) => dec_pair(j@) is None && (e matches Error::Decode(_, _)),
        },
{
    match payload2(j) {
        Some((a, b)) => {
            let x = match decode_str(a) {
                Ok(x) => x,
                Err(e) => return Err(e),
            };
            let y = match decode_str(b) {
                Ok(y) => y,
                Err(e) => return Err(e),
            };
            Ok((x, y))
        },
        None => Err(Error::decode(DecodeKind::BadArity)),
    }
}

pub fn decode_target(j: &Json) -> (r: Result<Target, Error>)
    ensures
        match r {
            Ok(t) => dec_target(j@) == Some(target_view(t)),
            Err(e) => dec_target(j@) is None && (e matches Error::Decode(_, _)),
        },
{
    decode_pair(j)
}

pub fn decode_attr(j: &Json) -> (r: Result<Attr, Error>)
    ensures
        match r {
            Ok(a) => dec_attr(j@) == Some(attr_view(a)),
            Err(e) => dec_attr(j@) is None && (e matches Error::Decode(_, _)),
        },
{
    match payload3(j) {
        Some((c0, c1, c2)) => {
            let id = match decode_str(c0) {
                Ok(x) => x,
                Err(e) => return Err(e),
            };
            let cls = match decode_strings(c1) {
                Ok(x) => x,
                Err(e) => return Err(e),
            };
            let kvs = match decode_pairs(c2) {
                Ok(x) => x,
                Err(e) => return Err(e),
            };
            Ok((id, cls, kvs))
        },
        None => Err(Error::decode(DecodeKind::BadArity)),
    }
}

pub fn decode_list_attributes(j: &Json) -> (r: Result<ListAttributes, Error>)
    ensures
        match r {
            Ok(la) => dec_list_attributes(j@) == Some(la),
            Err(e) => dec_list_attributes(j@) is None && (e matches Error::Decode(_, _)),
        },
{
    match payload3(j) {
        Some((c0, c1, c2)) => {
            let n = match decode_int(c0) {
                Ok(x) => x,
                Err(e) => return Err(e),
            };
            let st = match decode_list_number_style(c1) {
                Ok(x) => x,
                Err(e) => return Err(e),
            };
            let de = match decode_list_number_delim(c2) {
                Ok(x) => x,
                Err(e) => return Err(e),
            };
            Ok((n, st, de))
        },
        None => Err(Error::decode(DecodeKind::BadArity)),
    }
}

/// One definition-list item: a term and its definitions.
pub fn decode_def(j: &Json) -> (r: Result<(Vec<Inline>, Vec<Vec<Block>>), Error>)
    ensures
        match r {
            Ok(d) => dec_def(j@) == Some((inlines_view(d.0@), items_view(d.1@))),
            Err(e) => dec_def(j@) is None && (e matches Error::Decode(_, _)),
        },
    decreases j, 5int,
{
    match payload2(j) {
        Some((a, b)) => {
            let t = match decode_inlines(a) {
                Ok(x) => x,
                Err(e) => return Err(e),
            };
            let ds = match decode_items(b) {
                Ok(x) => x,
                Err(e) => return Err(e),
            };
            Ok((t, ds))
        },
        None => Err(Error::decode(DecodeKind::BadArity)),
    }
}

pub fn decode_citation(j: &Json) -> (r: Result<Citation, Error>)
    ensures
        match r {
            Ok(c) => dec_citation(j@) == Some(c@),
            Err(e) => dec_citation(j@) is None && (e matches Error::Decode(_, _)),
        },
    decreases j, 3int,
{
    match j {
        Json::Obj(v) => {
            let ghost e = entries_view(v@);
            if v.len() != 6 {
                return Err(Error::decode(DecodeKind::BadShape));
            }
            let kid: String = "citationId".to_owned();
            let kpre: String = "citationPrefix".to_owned();
            let ksuf: String = "citationSuffix".to_owned();
            let kmode: String = "citationMode".to_owned();
            let knum: String = "citationNoteNum".to_owned();
            let khash: String = "citationHash".to_owned();
            let i_id = match find_key(v, &kid) {
                Some(i) => i,
                None => return Err(Error::decode(DecodeKind::BadShape)),
            };
            let i_pre = match find_key(v, &kpre) {
                Some(i) => i,
                None => return Err(Error::decode(DecodeKind::BadShape)),
            };
            let i_suf = match find_key(v, &ksuf) {
                Some(i) => i,
                None => return Err(Error::decode(DecodeKind::BadShape)),
            };
            let i_mode = match find_key(v, &kmode) {
                Some(i) => i,
                None => return Err(Error::decode(DecodeKind::BadShape)),
            };
            let i_num = match find_key(v, &knum) {
                Some(i) => i,
                None => return Err(Error::decode(DecodeKind::BadShape)),
            };
            let i_hash = match find_key(v, &khash) {
                Some(i) => i,
                None => return Err(Error::decode(DecodeKind::BadShape)),
            };
            proof {
                assert(decreases_to!(*j => j->Obj_0));
                assert(decreases_to!(*v => v@));
                assert(decreases_to!(v@ => v@[i_id as int]));
                assert(decreases_to!(v@[i_id as int] => v@[i_id as int].1));
                assert(decreases_to!(*j => v@[i_id as int].1));
                assert(decreases_to!(v@ => v@[i_pre as int]));
                assert(decreases_to!(v@[i_pre as int] => v@[i_pre as int].1));
                assert(decreases_to!(*j => v@[i_pre as int].1));
                assert(decreases_to!(v@ => v@[i_suf as int]));
                assert(decreases_to!(v@[i_suf as int] => v@[i_suf as int].1));
                assert(decreases_to!(*j => v@[i_suf as int].1));
                assert(decreases_to!(v@ => v@[i_mode as int]));
                assert(decreases_to!(v@[i_mode as int] => v@[i_mode as int].1));
                assert(decreases_to!(*j => v@[i_mode as int].1));
                assert(e[i_id as int] == (v@[i_id as int].0@, json_view(v@[i_id as int].1)));
                assert(e[i_pre as int] == (v@[i_pre as int].0@, json_view(v@[i_pre as int].1)));
                assert(e[i_suf as int] == (v@[i_suf as int].0@, json_view(v@[i_suf as int].1)));
                assert(e[i_mode as int] == (v@[i_mode as int].0@, json_view(v@[i_mode as int].1)));
                assert(e[i_num as int] == (v@[i_num as int].0@, json_view(v@[i_num as int].1)));
                assert(e[i_hash as int] == (v@[i_hash as int].0@, json_view(v@[i_hash as int].1)));
            }
            let id = match decode_str(&v[i_id].1) {
                Ok(x) => x,
                Err(er) => return Err(er.in_key(&kid)),
            };
            let pre = match decode_inlines(&v[i_pre].1) {
                Ok(x) => x,
                Err(er) => return Err(er.in_key(&kpre)),
            };
            let suf = match decode_inlines(&v[i_suf].1) {
                Ok(x) => x,
                Err(er) => return Err(er.in_key(&ksuf)),
            };
            let mode = match decode_citation_mode(&v[i_mode].1) {
                Ok(x) => x,
                Err(er) => return Err(er.in_key(&kmode)),
            };
            let num = match decode_int(&v[i_num].1) {
                Ok(x) => x,
                Err(er) => return Err(er.in_key(&knum)),
            };
            let hash = match decode_int(&v[i_hash].1) {
                Ok(x) => x,
                Err(er) => return Err(er.in_key(&khash)),
            };
            Ok(
                Citation {
                    citationId: id,
                    citationPrefix: pre,
                    citationSuffix: suf,
                    citationMode: mode,
                    citationNoteNum: num,
                    citationHash: hash,
                },
            )
        },
        _ => Err(Error::decode(DecodeKind::BadShape)),
    }
}

} // verus!

verus! {

#[verifier::rlimit(60)]
pub fn decode_inline(j: &Json) -> (r: Result<Inline, Error>)
    ensures
        match r {
            Ok(x) => dec_inline(j@) == Some(x@),
            Err(e) => dec_inline(j@) is None && (e matches Error::Decode(_, p)
                && (un_tag(j@) matches Some((nm, c)) ==> p@.len() >= 1 && p@[0]@ == nm)),
        },
    decreases j, 3int,
{
    match get_tag(j) {
        Some((name, c)) => {
            if str_is(name, "Str") {
                match decode_str(c) {
                    Ok(s) => Ok(Inline::Str(s)),
                    Err(e) => Err(e.in_key(name)),
                }
            } else if str_is(name, "Emph") {
                match decode_inlines(c) {
                    Ok(v) => Ok(Inline::Emph(v)),
                    Err(e) => Err(e.in_key(name)),
                }
            } else if str_is(name, "Strong") {
                match decode_inlines(c) {
                    Ok(v) => Ok(Inline::Strong(v)),
                    Err(e) => Err(e.in_key(name)),
                }
            } else if str_is(name, "Strikeout") {
                match decode_inlines(c) {
                    Ok(v) => Ok(Inline::Strikeout(v)),
                    Err(e) => Err(e.in_key(name)),
                }
            } else if str_is(name, "Superscript") {
                match decode_inlines(c) {
                    Ok(v) => Ok(Inline::Superscript(v)),
                    Err(e) => Err(e.in_key(name)),
                }
            } else if str_is(name, "Subscript") {
                match decode_inlines(c) {
                    Ok(v) => Ok(Inline::Subscript(v)),
                    Err(e) => Err(e.in_key(name)),
                }
            } else if str_is(name, "SmallCaps") {
                match decode_inlines(c) {
                    Ok(v) => Ok(Inline::SmallCaps(v)),
                    Err(e) => Err(e.in_key(name)),
                }
            } else if str_is(name, "Quoted") {
                match payload2(c) {
                    Some((c0, c1)) => {
                        let q = match decode_quote_type(c0) {
                            Ok(x) => x,
                            Err(e) => return Err(e.in_key(name)),
                        };
                        let v = match decode_inlines(c1) {
                            Ok(x) => x,
                            Err(e) => return Err(e.in_key(name)),
                        };
                        Ok(Inline::Quoted(q, v))
                    },
                    None => Err(Error::decode(DecodeKind::BadArity).in_key(name)),
                }
            } else if str_is(name, "Cite") {
                match payload2(c) {
                    Some((c0, c1)) => {
                        let cs = match decode_citations(c0) {
                            Ok(x) => x,
                            Err(e) => return Err(e.in_key(name)),
                        };
                        let v = match decode_inlines(c1) {
                            Ok(x) => x,
                            Err(e) => return Err(e.in_key(name)),
                        };
                        Ok(Inline::Cite(cs, v))
                    },
                    None => Err(Error::decode(DecodeKind::BadArity).in_key(name)),
                }
            } else if str_is(name, "Code") {
                match payload2(c) {
                    Some((c0, c1)) => {
                        let a = match decode_attr(c0) {
                            Ok(x) => x,
                            Err(e) => return Err(e.in_key(name)),
                        };
                        let s = match decode_str(c1) {
                            Ok(x) => x,
                            Err(e) => return Err(e.in_key(name)),
                        };
                        Ok(Inline::Code(a, s))
                    },
                    None => Err(Error::decode(DecodeKind::BadArity).in_key(name)),
                }
            } else if str_is(name, "Space") {
                if is_unit(c) {
                    Ok(Inline::Space)
                } else {
                    Err(Error::decode(DecodeKind::BadArity).in_key(name))
                }
            } else if str_is(name, "LineBreak") {
                if is_unit(c) {
                    Ok(Inline::LineBreak)
                } else {
                    Err(Error::decode(DecodeKind::BadArity).in_key(name))
                }
            } else if str_is(name, "Math") {
                match payload2(c) {
                    Some((c0, c1)) => {
                        let m = match decode_math_type(c0) {
                            Ok(x) => x,
                            Err(e) => return Err(e.in_key(name)),
                        };
                        let s = match decode_str(c1) {
                            Ok(x) => x,
                            Err(e) => return Err(e.in_key(name)),
                        };
                        Ok(Inline::Math(m, s))
                    },
                    None => Err(Error::decode(DecodeKind::BadArity).in_key(name)),
                }
            } else if str_is(name, "RawInline") {
                match payload2(c) {
                    Some((c0, c1)) => {
                        let f = match decode_str(c0) {
                            Ok(x) => x,
                            Err(e) => return Err(e.in_key(name)),
                        };
                        let s = match decode_str(c1) {
                            Ok(x) => x,
                            Err(e) => return Err(e.in_key(name)),
                        };
                        Ok(Inline::RawInline(Format(f), s))
                    },
                    None => Err(Error::decode(DecodeKind::BadArity).in_key(name)),
                }
            } else if str_is(name, "Link") {
                match payload2(c) {
                    Some((c0, c1)) => {
                        let v = match decode_inlines(c0) {
                            Ok(x) => x,
                            Err(e) => return Err(e.in_key(name)),
                        };
                        let t = match decode_target(c1) {
                            Ok(x) => x,
                            Err(e) => return Err(e.in_key(name)),
                        };
                        Ok(Inline::Link(v, t))
                    },
                    None => Err(Error::decode(DecodeKind::BadArity).in_key(name)),
                }
            } else if str_is(name, "Image") {
                match payload2(c) {
                    Some((c0, c1)) => {
                        let v = match decode_inlines(c0) {
                            Ok(x) => x,
                            Err(e) => return Err(e.in_key(name)),
                        };
                        let t = match decode_target(c1) {
                            Ok(x) => x,
                            Err(e) => return Err(e.in_key(name)),
                        };
                        Ok(Inline::Image(v, t))
                    },
                    None => Err(Error::decode(DecodeKind::BadArity).in_key(name)),
                }
            } else if str_is(name, "Note") {
                match decode_blocks(c) {
                    Ok(bs) => Ok(Inline::Note(bs)),
                    Err(e) => Err(e.in_key(name)),
                }
            } else if str_is(name, "Span") {
                match payload2(c) {
                    Some((c0, c1)) => {
                        let a = match decode_attr(c0) {
                            Ok(x) => x,
                            Err(e) => return Err(e.in_key(name)),
                        };
                        let v = match decode_inlines(c1) {
                            Ok(x) => x,
                            Err(e) => return Err(e.in_key(name)),
                        };
                        Ok(Inline::Span(a, v))
                    },
                    None => Err(Error::decode(DecodeKind::BadArity).in_key(name)),
                }
            } else {
                Err(Error::decode(DecodeKind::UnknownVariant).in_key(name))
            }
        },
        None => Err(Error::decode(DecodeKind::BadShape)),
    }
}

pub fn decode_block(j: &Json) -> (r: Result<Block, Error>)
    ensures
        match r {
            Ok(x) => dec_block(j@) == Some(x@),
            Err(e) => dec_block(j@) is None && (e matches Error::Decode(_, p)
                && (un_tag(j@) matches Some((nm, c)) ==> p@.len() >= 1 && p@[0]@ == nm)),
        },
    decreases j, 3int,
{
    match get_tag(j) {
        Some((name, c)) => {
            if str_is(name, "Plain") {
                match decode_inlines(c) {
                    Ok(v) => Ok(Block::Plain(v)),
                    Err(e) => Err(e.in_key(name)),
                }
            } else if str_is(name, "Para") {
                match decode_inlines(c) {
                    Ok(v) => Ok(Block::Para(v)),
                    Err(e) => Err(e.in_key(name)),
                }
            } else if str_is(name, "CodeBlock") {
                match payload2(c) {
                    Some((c0, c1)) => {
                        let a = match decode_attr(c0) {
                            Ok(x) => x,
                            Err(e) => return Err(e.in_key(name)),
                        };
                        let s = match decode_str(c1) {
                            Ok(x) => x,
                            Err(e) => return Err(e.in_key(name)),
                        };
                        Ok(Block::CodeBlock(a, s))
                    },
                    None => Err(Error::decode(DecodeKind::BadArity).in_key(name)),
                }
            } else if str_is(name, "RawBlock") {
                match payload2(c) {
                    Some((c0, c1)) => {
                        let f = match decode_str(c0) {
                            Ok(x) => x,
                            Err(e) => return Err(e.in_key(name)),
                        };
                        let s = match decode_str(c1) {
                            Ok(x) => x,
                            Err(e) => return Err(e.in_key(name)),
                        };
                        Ok(Block::RawBlock(Format(f), s))
                    },
                    None => Err(Error::decode(DecodeKind::BadArity).in_key(name)),
                }
            } else if str_is(name, "BlockQuote") {
                match decode_blocks(c) {
                    Ok(v) => Ok(Block::BlockQuote(v)),
                    Err(e) => Err(e.in_key(name)),
                }
            } else if str_is(name, "OrderedList") {
                match payload2(c) {
                    Some((c0, c1)) => {
                        let la = match decode_list_attributes(c0) {
                            Ok(x) => x,
                            Err(e) => return Err(e.in_key(name)),
                        };
                        let items = match decode_items(c1) {
                            Ok(x) => x,
                            Err(e) => return Err(e.in_key(name)),
                        };
                        Ok(Block::OrderedList(la, items))
                    },
                    None => Err(Error::decode(DecodeKind::BadArity).in_key(name)),
                }
            } else if str_is(name, "BulletList") {
                match decode_items(c) {
                    Ok(items) => Ok(Block::BulletList(items)),
                    Err(e) => Err(e.in_key(name)),
                }
            } else if str_is(name, "DefinitionList") {
                match decode_defs(c) {
                    Ok(defs) => Ok(Block::DefinitionList(defs)),
                    Err(e) => Err(e.in_key(name)),
                }
            } else if str_is(name, "Header") {
                match payload3(c) {
                    Some((c0, c1, c2)) => {
                        let l = match decode_int(c0) {
                            Ok(x) => x,
                            Err(e) => return Err(e.in_key(name)),
                        };
                        let a = match decode_attr(c1) {
                            Ok(x) => x,
                            Err(e) => return Err(e.in_key(name)),
                        };
                        let v = match decode_inlines(c2) {
                            Ok(x) => x,
                            Err(e) => return Err(e.in_key(name)),
                        };
                        Ok(Block::Header(l, a, v))
                    },
                    None => Err(Error::decode(DecodeKind::BadArity).in_key(name)),
                }
            } else if str_is(name, "HorizontalRule") {
                if is_unit(c) {
                    Ok(Block::HorizontalRule)
                } else {
                    Err(Error::decode(DecodeKind::BadArity).in_key(name))
                }
            } else if str_is(name, "Table") {
                match payload5(c) {
                    Some((c0, c1, c2, c3, c4)) => {
                        let cap = match decode_inlines(c0) {
                            Ok(x) => x,
                            Err(e) => return Err(e.in_key(name)),
                        };
                        let al = match decode_alignments(c1) {
                            Ok(x) => x,
                            Err(e) => return Err(e.in_key(name)),
                        };
                        let w = match decode_nums(c2) {
                            Ok(x) => x,
                            Err(e) => return Err(e.in_key(name)),
                        };
                        let hd = match decode_items(c3) {
                            Ok(x) => x,
                            Err(e) => return Err(e.in_key(name)),
                        };
                        let rows = match decode_rows(c4) {
                            Ok(x) => x,
                            Err(e) => return Err(e.in_key(name)),
                        };
                        Ok(Block::Table(cap, al, w, hd, rows))
                    },
                    None => Err(Error::decode(DecodeKind::BadArity).in_key(name)),
                }
            } else if str_is(name, "Div") {
                match payload2(c) {
                    Some((c0, c1)) => {
                        let a = match decode_attr(c0) {
                            Ok(x) => x,
                            Err(e) => return Err(e.in_key(name)),
                        };
                        let v = match decode_blocks(c1) {
                            Ok(x) => x,
                            Err(e) => return Err(e.in_key(name)),
                        };
                        Ok(Block::Div(a, v))
                    },
                    None => Err(Error::decode(DecodeKind::BadArity).in_key(name)),
                }
            } else if str_is(name, "Null") {
                if is_unit(c) {
                    Ok(Block::Null)
                } else {
                    Err(Error::decode(DecodeKind::BadArity).in_key(name))
                }
            } else {
                Err(Error::decode(DecodeKind::UnknownVariant).in_key(name))
            }
        },
        None => Err(Error::decode(DecodeKind::BadShape)),
    }
}

/// The entries of a metadata-map object, values decoded, keys kept.
#[verifier::loop_isolation(false)]
pub fn decode_metamap(j: &Json) -> (r: Result<Vec<(String, MetaValue)>, Error>)
    ensures
        match r {
            Ok(m) => dec_mvmap(j@) == Some(metamap_view(m@)),
            Err(e) => dec_mvmap(j@) is None && (e matches Error::Decode(_, _)),
        },
    decreases j, 4int,
{
    match j {
        Json::Obj(v) => {
            let ghost s = entries_view(v@);
            let mut out: Vec<(String, MetaValue)> = Vec::new();
            let mut i: usize = 0;
            while i < v.len()
                invariant
                    0 <= i <= v.len(),
                    out@.len() == i,
                    forall|k: int|
                        0 <= k < i ==> metamap_view(out@)[k].0 == s[k].0 && (#[trigger] dec_metavalue(
                            s[k].1,
                        )) == Some(metamap_view(out@)[k].1),
                decreases v.len() - i,
            {
                proof {
                    assert(*j == Json::Obj(*v));
                    assert(decreases_to!(*j => j->Obj_0));
                    assert(decreases_to!(*v => v@));
                    assert(decreases_to!(v@ => v@[i as int]));
                    assert(decreases_to!(v@[i as int] => v@[i as int].1));
                    assert(decreases_to!(*j => v@[i as int].1));
                }
                match decode_metavalue(&v[i].1) {
                    Ok(x) => {
                        let ghost xv = x@;
                        let p = (v[i].0.clone(), x);
                        let ghost pk = p.0@;
                        out.push(p);
                        proof {
                            assert(metamap_view(out@)[i as int] == (pk, xv));
                            assert(s[i as int] == (v@[i as int].0@, v@[i as int].1@));
                        }
                    },
                    Err(e) => {
                        proof {
                            assert(dec_metavalue(s[i as int].1) is None);
                            lemma_dec_entry_seq(s);
                            if dec_entry_seq(s) is Some {
                                assert(false);
                            }
                        }
                        return Err(e);
                    },
                }
                i = i + 1;
            }
            proof {
                lemma_dec_entry_seq(s);
                if dec_entry_seq(s) is None {
                    let w = choose|k: int|
                        0 <= k < s.len() && (#[trigger] dec_metavalue(s[k].1)) is None;
                    assert(false);
                }
                let r0 = dec_entry_seq(s).unwrap();
                assert forall|k: int| 0 <= k < s.len() implies r0[k] == metamap_view(out@)[k] by {
                    assert(dec_metavalue(s[k].1) == Some(metamap_view(out@)[k].1));
                    assert(metamap_view(out@)[k].0 == s[k].0);
                }
                assert(r0 =~= metamap_view(out@));
            }
            Ok(out)
        },
        _ => Err(Error::decode(DecodeKind::BadShape)),
    }
}

pub fn decode_metavalue(j: &Json) -> (r: Result<MetaValue, Error>)
    ensures
        match r {
            Ok(x) => dec_metavalue(j@) == Some(x@),
            Err(e) => dec_metavalue(j@) is None && (e matches Error::Decode(_, p)
                && (un_tag(j@) matches Some((nm, c)) ==> p@.len() >= 1 && p@[0]@ == nm)),
        },
    decreases j, 3int,
{
    match get_tag(j) {
        Some((name, c)) => {
            if str_is(name, "MetaMap") {
                match decode_metamap(c) {
                    Ok(m) => Ok(MetaValue::MetaMap(m)),
                    Err(e) => Err(e.in_key(name)),
                }
            } else if str_is(name, "MetaList") {
                match decode_metalist(c) {
                    Ok(v) => Ok(MetaValue::MetaList(v)),
                    Err(e) => Err(e.in_key(name)),
                }
            } else if str_is(name, "MetaBool") {
                match decode_bool(c) {
                    Ok(b) => Ok(MetaValue::MetaBool(b)),
                    Err(e) => Err(e.in_key(name)),
                }
            } else if str_is(name, "MetaString") {
                match decode_str(c) {
                    Ok(s) => Ok(MetaValue::MetaString(s)),
                    Err(e) => Err(e.in_key(name)),
                }
            } else if str_is(name, "MetaInlines") {
                match decode_inlines(c) {
                    Ok(v) => Ok(MetaValue::MetaInlines(v)),
                    Err(e) => Err(e.in_key(name)),
                }
            } else if str_is(name, "MetaBlocks") {
                match decode_blocks(c) {
                    Ok(v) => Ok(MetaValue::MetaBlocks(v)),
                    Err(e) => Err(e.in_key(name)),
                }
            } else {
                Err(Error::decode(DecodeKind::UnknownVariant).in_key(name))
            }
        },
        None => Err(Error::decode(DecodeKind::BadShape)),
    }
}

pub fn decode_meta(j: &Json) -> (r: Result<Meta, Error>)
    ensures
        match r {
            Ok(m) => dec_meta(j@) == Some(meta_view(m)),
            Err(e) => dec_meta(j@) is None && (e matches Error::Decode(_, p)
                && (un_tag(j@) matches Some((nm, c)) ==> p@.len() >= 1 && p@[0]@ == nm)),
        },
    decreases j, 5int,
{
    match get_tag(j) {
        Some((name, c)) => {
            if str_is(name, "unMeta") {
                match decode_metamap(c) {
                    Ok(m) => Ok(Meta { unMeta: m }),
                    Err(e) => Err(e.in_key(name)),
                }
            } else {
                Err(Error::decode(DecodeKind::BadShape).in_key(name))
            }
        },
        None => Err(Error::decode(DecodeKind::BadShape)),
    }
}

/// Decode a whole normalized document.
pub fn decode_pandoc(j: &Json) -> (r: Result<Pandoc, Error>)
    ensures
        match r {
            Ok(d) => dec_pandoc(j@) == Some(pandoc_view(d)),
            Err(e) => dec_pandoc(j@) is None && (e matches Error::Decode(_, _)),
        },
    decreases j, 6int,
{
    match payload2(j) {
        Some((c0, c1)) => {
            let m = match decode_meta(c0) {
                Ok(x) => x,
                Err(e) => return Err(e),
            };
            let bs = match decode_blocks(c1) {
                Ok(x) => x,
                Err(e) => return Err(e),
            };
            Ok(Pandoc(m, bs))
        },
        None => Err(Error::decode(DecodeKind::BadShape)),
    }
}

} // verus!
