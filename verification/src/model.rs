//! The document model: the typed tree that the codec decodes into and
//! encodes from, together with its spec-level model (`...V` types with
//! `Seq`-based fields) and the view functions between the two.

use vstd::prelude::*;

use crate::json::JNum;
use crate::json::JNumV;
use crate::json::jnum_view;

verus! {

/// Integer fields of the document model.
pub type Int = i64;

/// Attributes: identifier, classes, key-value pairs.
pub type Attr = (String, Vec<String>, Vec<(String, String)>);

/// Link target: URL and title.
pub type Target = (String, String);

/// A table cell is a list of blocks.
pub type TableCell = Vec<Block>;

/// Ordered-list attributes: start number, numbering style, delimiter.
pub type ListAttributes = (Int, ListNumberStyle, ListNumberDelim);

/// The root object of a pandoc document: metadata and blocks.
#[derive(Debug, PartialEq, Eq)]
pub struct Pandoc(pub Meta, pub Vec<Block>);

/// Metadata for the document: title, authors, date.
#[derive(Debug, PartialEq, Eq)]
#[allow(non_snake_case)]
pub struct Meta {
    pub unMeta: Vec<(String, MetaValue)>,
}

/// A metadata value.
#[derive(Debug, PartialEq, Eq)]
pub enum MetaValue {
    MetaMap(Vec<(String, MetaValue)>),
    MetaList(Vec<MetaValue>),
    MetaBool(bool),
    MetaString(String),
    MetaInlines(Vec<Inline>),
    MetaBlocks(Vec<Block>),
}

/// Structured text like tables and lists.
#[derive(Debug, PartialEq, Eq)]
pub enum Block {
    /// Plain text, not a paragraph
    Plain(Vec<Inline>),
    /// Paragraph
    Para(Vec<Inline>),
    /// Code block (literal) with attributes
    CodeBlock(Attr, String),
    RawBlock(Format, String),
    /// Block quote (list of blocks)
    BlockQuote(Vec<Block>),
    /// Ordered list (attributes and a list of items, each a list of blocks)
    OrderedList(ListAttributes, Vec<Vec<Block>>),
    /// Bullet list (list of items, each a list of blocks)
    BulletList(Vec<Vec<Block>>),
    /// Definition list: each item pairs a term (a list of inlines)
    /// with one or more definitions (each a list of blocks)
    DefinitionList(Vec<(Vec<Inline>, Vec<Vec<Block>>)>),
    /// Header: level (integer) and text (inlines)
    Header(Int, Attr, Vec<Inline>),
    HorizontalRule,
    /// Table: caption, column alignments, relative column widths (a JSON
    /// number carried through unread; 0 means default), column headers
    /// (each a list of blocks), and rows (each a list of lists of blocks)
    Table(Vec<Inline>, Vec<Alignment>, Vec<JNum>, Vec<TableCell>, Vec<Vec<TableCell>>),
    /// Generic block container with attributes
    Div(Attr, Vec<Block>),
    /// Nothing
    Null,
}

/// A single formatting item like bold, italic or hyperlink.
#[derive(Debug, PartialEq, Eq)]
pub enum Inline {
    /// Text
    Str(String),
    /// Emphasized text
    Emph(Vec<Inline>),
    /// Strongly emphasized text
    Strong(Vec<Inline>),
    Strikeout(Vec<Inline>),
    Superscript(Vec<Inline>),
    Subscript(Vec<Inline>),
    SmallCaps(Vec<Inline>),
    /// Quoted text
    Quoted(QuoteType, Vec<Inline>),
    /// Citation
    Cite(Vec<Citation>, Vec<Inline>),
    /// Inline code (literal)
    Code(Attr, String),
    /// Inter-word space
    Space,
    /// Hard line break
    LineBreak,
    /// TeX math (literal)
    Math(MathType, String),
    RawInline(Format, String),
    /// Hyperlink: text (list of inlines), target
    Link(Vec<Inline>, Target),
    /// Image: alt text (list of inlines), target
    Image(Vec<Inline>, Target),
    /// Footnote or endnote
    Note(Vec<Block>),
    /// Generic inline container with attributes
    Span(Attr, Vec<Inline>),
}

/// Alignment of a table column.
#[derive(Debug, Clone, Copy, PartialEq, Eq, Structural)]
pub enum Alignment {
    AlignLeft,
    AlignRight,
    AlignCenter,
    AlignDefault,
}

/// Style of list numbers.
#[derive(Debug, Clone, Copy, PartialEq, Eq, Structural)]
pub enum ListNumberStyle {
    DefaultStyle,
    Example,
    Decimal,
    LowerRoman,
    UpperRoman,
    LowerAlpha,
    UpperAlpha,
}

/// Delimiter of list numbers.
#[derive(Debug, Clone, Copy, PartialEq, Eq, Structural)]
pub enum ListNumberDelim {
    DefaultDelim,
    Period,
    OneParen,
    TwoParens,
}

/// Format for raw blocks and raw inlines.
#[derive(Debug, PartialEq, Eq)]
pub struct Format(pub String);

/// Type of quotation marks to use in quoted inlines.
#[derive(Debug, Clone, Copy, PartialEq, Eq, Structural)]
pub enum QuoteType {
    SingleQuote,
    DoubleQuote,
}

/// Type of math element (display or inline).
#[derive(Debug, Clone, Copy, PartialEq, Eq, Structural)]
pub enum MathType {
    DisplayMath,
    InlineMath,
}

/// A citation: id, prefix and suffix text, mode, note number, hash.
#[derive(Debug, PartialEq, Eq)]
#[allow(non_snake_case)]
pub struct Citation {
    pub citationId: String,
    pub citationPrefix: Vec<Inline>,
    pub citationSuffix: Vec<Inline>,
    pub citationMode: CitationMode,
    pub citationNoteNum: Int,
    pub citationHash: Int,
}

/// How a citation is rendered.
#[derive(Debug, Clone, Copy, PartialEq, Eq, Structural)]
pub enum CitationMode {
    AuthorInText,
    SuppressAuthor,
    NormalCitation,
}

// ------------------------------------------------------------------
// Spec models
// ------------------------------------------------------------------

pub type AttrV = (Seq<char>, Seq<Seq<char>>, Seq<(Seq<char>, Seq<char>)>);

pub type TargetV = (Seq<char>, Seq<char>);

pub type ListAttributesV = (i64, ListNumberStyle, ListNumberDelim);

#[verifier::ext_equal]
pub struct PandocV {
    pub meta: Seq<(Seq<char>, MetaValueV)>,
    pub blocks: Seq<BlockV>,
}

#[verifier::ext_equal]
pub enum MetaValueV {
    MetaMap(Seq<(Seq<char>, MetaValueV)>),
    MetaList(Seq<MetaValueV>),
    MetaBool(bool),
    MetaString(Seq<char>),
    MetaInlines(Seq<InlineV>),
    MetaBlocks(Seq<BlockV>),
}

#[verifier::ext_equal]
pub enum BlockV {
    Plain(Seq<InlineV>),
    Para(Seq<InlineV>),
    CodeBlock(AttrV, Seq<char>),
    RawBlock(Seq<char>, Seq<char>),
    BlockQuote(Seq<BlockV>),
    OrderedList(ListAttributesV, Seq<Seq<BlockV>>),
    BulletList(Seq<Seq<BlockV>>),
    DefinitionList(Seq<(Seq<InlineV>, Seq<Seq<BlockV>>)>),
    Header(i64, AttrV, Seq<InlineV>),
    HorizontalRule,
    Table(Seq<InlineV>, Seq<Alignment>, Seq<JNumV>, Seq<Seq<BlockV>>, Seq<Seq<Seq<BlockV>>>),
    Div(AttrV, Seq<BlockV>),
    Null,
}

#[verifier::ext_equal]
pub enum InlineV {
    Str(Seq<char>),
    Emph(Seq<InlineV>),
    Strong(Seq<InlineV>),
    Strikeout(Seq<InlineV>),
    Superscript(Seq<InlineV>),
    Subscript(Seq<InlineV>),
    SmallCaps(Seq<InlineV>),
    Quoted(QuoteType, Seq<InlineV>),
    Cite(Seq<CitationV>, Seq<InlineV>),
    Code(AttrV, Seq<char>),
    Space,
    LineBreak,
    Math(MathType, Seq<char>),
    RawInline(Seq<char>, Seq<char>),
    Link(Seq<InlineV>, TargetV),
    Image(Seq<InlineV>, TargetV),
    Note(Seq<BlockV>),
    Span(AttrV, Seq<InlineV>),
}

#[verifier::ext_equal]
pub struct CitationV {
    pub id: Seq<char>,
    pub prefix: Seq<InlineV>,
    pub suffix: Seq<InlineV>,
    pub mode: CitationMode,
    pub note_num: i64,
    pub hash: i64,
}

// ------------------------------------------------------------------
// View functions
// ------------------------------------------------------------------

pub open spec fn strings_view(s: Seq<String>) -> Seq<Seq<char>> {
    Seq::new(
        s.len(),
        |i: int|
            if 0 <= i < s.len() {
                s[i]@
            } else {
                Seq::empty()
            },
    )
}

pub open spec fn pairs_view(s: Seq<(String, String)>) -> Seq<(Seq<char>, Seq<char>)> {
    Seq::new(
        s.len(),
        |i: int|
            if 0 <= i < s.len() {
                (s[i].0@, s[i].1@)
            } else {
                (Seq::empty(), Seq::empty())
            },
    )
}

pub open spec fn attr_view(a: Attr) -> AttrV {
    (a.0@, strings_view(a.1@), pairs_view(a.2@))
}

pub open spec fn target_view(t: Target) -> TargetV {
    (t.0@, t.1@)
}

pub open spec fn nums_view(s: Seq<JNum>) -> Seq<JNumV> {
    Seq::new(
        s.len(),
        |i: int|
            if 0 <= i < s.len() {
                jnum_view(s[i])
            } else {
                JNumV::Int(0)
            },
    )
}

pub open spec fn inline_view(x: Inline) -> InlineV
    decreases x,
{
    match x {
        Inline::Str(s) => InlineV::Str(s@),
        Inline::Emph(v) => InlineV::Emph(inlines_view(v@)),
        Inline::Strong(v) => InlineV::Strong(inlines_view(v@)),
        Inline::Strikeout(v) => InlineV::Strikeout(inlines_view(v@)),
        Inline::Superscript(v) => InlineV::Superscript(inlines_view(v@)),
        Inline::Subscript(v) => InlineV::Subscript(inlines_view(v@)),
        Inline::SmallCaps(v) => InlineV::SmallCaps(inlines_view(v@)),
        Inline::Quoted(q, v) => InlineV::Quoted(q, inlines_view(v@)),
        Inline::Cite(cs, v) => InlineV::Cite(citations_view(cs@), inlines_view(v@)),
        Inline::Code(a, s) => InlineV::Code(attr_view(a), s@),
        Inline::Space => InlineV::Space,
        Inline::LineBreak => InlineV::LineBreak,
        Inline::Math(m, s) => InlineV::Math(m, s@),
        Inline::RawInline(f, s) => InlineV::RawInline(f.0@, s@),
        Inline::Link(v, t) => InlineV::Link(inlines_view(v@), target_view(t)),
        Inline::Image(v, t) => InlineV::Image(inlines_view(v@), target_view(t)),
        Inline::Note(bs) => InlineV::Note(blocks_view(bs@)),
        Inline::Span(a, v) => InlineV::Span(attr_view(a), inlines_view(v@)),
    }
}

pub open spec fn inlines_view(s: Seq<Inline>) -> Seq<InlineV>
    decreases s,
{
    Seq::new(
        s.len(),
        |i: int|
            if 0 <= i < s.len() {
                inline_view(s[i])
            } else {
                InlineV::Space
            },
    )
}

pub open spec fn citation_view(c: Citation) -> CitationV
    decreases c,
{
    CitationV {
        id: c.citationId@,
        prefix: inlines_view(c.citationPrefix@),
        suffix: inlines_view(c.citationSuffix@),
        mode: c.citationMode,
        note_num: c.citationNoteNum,
        hash: c.citationHash,
    }
}

pub open spec fn citations_view(s: Seq<Citation>) -> Seq<CitationV>
    decreases s,
{
    Seq::new(
        s.len(),
        |i: int|
            if 0 <= i < s.len() {
                citation_view(s[i])
            } else {
                CitationV {
                    id: Seq::empty(),
                    prefix: Seq::empty(),
                    suffix: Seq::empty(),
                    mode: CitationMode::NormalCitation,
                    note_num: 0,
                    hash: 0,
                }
            },
    )
}

pub open spec fn block_view(x: Block) -> BlockV
    decreases x,
{
    match x {
        Block::Plain(v) => BlockV::Plain(inlines_view(v@)),
        Block::Para(v) => BlockV::Para(inlines_view(v@)),
        Block::CodeBlock(a, s) => BlockV::CodeBlock(attr_view(a), s@),
        Block::RawBlock(f, s) => BlockV::RawBlock(f.0@, s@),
        Block::BlockQuote(v) => BlockV::BlockQuote(blocks_view(v@)),
        Block::OrderedList(la, items) => BlockV::OrderedList(la, items_view(items@)),
        Block::BulletList(items) => BlockV::BulletList(items_view(items@)),
        Block::DefinitionList(defs) => BlockV::DefinitionList(defs_view(defs@)),
        Block::Header(n, a, v) => BlockV::Header(n, attr_view(a), inlines_view(v@)),
        Block::HorizontalRule => BlockV::HorizontalRule,
        Block::Table(cap, al, w, hd, rows) => BlockV::Table(
            inlines_view(cap@),
            al@,
            nums_view(w@),
            items_view(hd@),
            rows_view(rows@),
        ),
        Block::Div(a, v) => BlockV::Div(attr_view(a), blocks_view(v@)),
        Block::Null => BlockV::Null,
    }
}

pub open spec fn blocks_view(s: Seq<Block>) -> Seq<BlockV>
    decreases s,
{
    Seq::new(
        s.len(),
        |i: int|
            if 0 <= i < s.len() {
                block_view(s[i])
            } else {
                BlockV::Null
            },
    )
}

/// View of a list of items, each a list of blocks.
pub open spec fn items_view(s: Seq<Vec<Block>>) -> Seq<Seq<BlockV>>
    decreases s,
{
    Seq::new(
        s.len(),
        |i: int|
            if 0 <= i < s.len() {
                blocks_view(s[i]@)
            } else {
                Seq::empty()
            },
    )
}

/// View of table rows, each a list of cells.
pub open spec fn rows_view(s: Seq<Vec<TableCell>>) -> Seq<Seq<Seq<BlockV>>>
    decreases s,
{
    Seq::new(
        s.len(),
        |i: int|
            if 0 <= i < s.len() {
                items_view(s[i]@)
            } else {
                Seq::empty()
            },
    )
}

/// View of definition-list items.
pub open spec fn defs_view(s: Seq<(Vec<Inline>, Vec<Vec<Block>>)>) -> Seq<
    (Seq<InlineV>, Seq<Seq<BlockV>>),
>
    decreases s,
{
    Seq::new(
        s.len(),
        |i: int|
            if 0 <= i < s.len() {
                (inlines_view(s[i].0@), items_view(s[i].1@))
            } else {
                (Seq::empty(), Seq::empty())
            },
    )
}

pub open spec fn metavalue_view(x: MetaValue) -> MetaValueV
    decreases x,
{
    match x {
        MetaValue::MetaMap(m) => MetaValueV::MetaMap(metamap_view(m@)),
        MetaValue::MetaList(v) => MetaValueV::MetaList(metalist_view(v@)),
        MetaValue::MetaBool(b) => MetaValueV::MetaBool(b),
        MetaValue::MetaString(s) => MetaValueV::MetaString(s@),
        MetaValue::MetaInlines(v) => MetaValueV::MetaInlines(inlines_view(v@)),
        MetaValue::MetaBlocks(v) => MetaValueV::MetaBlocks(blocks_view(v@)),
    }
}

pub open spec fn metamap_view(s: Seq<(String, MetaValue)>) -> Seq<(Seq<char>, MetaValueV)>
    decreases s,
{
    Seq::new(
        s.len(),
        |i: int|
            if 0 <= i < s.len() {
                (s[i].0@, metavalue_view(s[i].1))
            } else {
                (Seq::empty(), MetaValueV::MetaBool(false))
            },
    )
}

pub open spec fn metalist_view(s: Seq<MetaValue>) -> Seq<MetaValueV>
    decreases s,
{
    Seq::new(
        s.len(),
        |i: int|
            if 0 <= i < s.len() {
                metavalue_view(s[i])
            } else {
                MetaValueV::MetaBool(false)
            },
    )
}

pub open spec fn meta_view(m: Meta) -> Seq<(Seq<char>, MetaValueV)> {
    metamap_view(m.unMeta@)
}

pub open spec fn pandoc_view(d: Pandoc) -> PandocV {
    PandocV { meta: meta_view(d.0), blocks: blocks_view(d.1@) }
}

impl View for Inline {
    type V = InlineV;

    open spec fn view(&self) -> InlineV {
        inline_view(*self)
    }
}

impl View for Block {
    type V = BlockV;

    open spec fn view(&self) -> BlockV {
        block_view(*self)
    }
}

impl View for MetaValue {
    type V = MetaValueV;

    open spec fn view(&self) -> MetaValueV {
        metavalue_view(*self)
    }
}

impl View for Citation {
    type V = CitationV;

    open spec fn view(&self) -> CitationV {
        citation_view(*self)
    }
}

impl View for Meta {
    type V = Seq<(Seq<char>, MetaValueV)>;

    open spec fn view(&self) -> Seq<(Seq<char>, MetaValueV)> {
        meta_view(*self)
    }
}

impl View for Pandoc {
    type V = PandocV;

    open spec fn view(&self) -> PandocV {
        pandoc_view(*self)
    }
}

impl View for Format {
    type V = Seq<char>;

    open spec fn view(&self) -> Seq<char> {
        self.0@
    }
}

} // verus!
