use pandoc_ast::Alignment;
use pandoc_ast::Block;
use pandoc_ast::Citation;
use pandoc_ast::CitationMode;
use pandoc_ast::DecodeKind;
use pandoc_ast::Error;
use pandoc_ast::Format;
use pandoc_ast::Inline;
use pandoc_ast::JNum;
use pandoc_ast::Json;
use pandoc_ast::ListNumberDelim;
use pandoc_ast::ListNumberStyle;
use pandoc_ast::MathType;
use pandoc_ast::Meta;
use pandoc_ast::MetaValue;
use pandoc_ast::Pandoc;
use pandoc_ast::QuoteType;
use pandoc_ast::decode_pandoc;
use pandoc_ast::encode_pandoc;
use pandoc_ast::filter;
use pandoc_ast::normalize;

fn empty_attr() -> (String, Vec<String>, Vec<(String, String)>) {
    (String::new(), vec![], vec![])
}

fn doc(blocks: Vec<Block>) -> Pandoc {
    Pandoc(Meta { unMeta: vec![] }, blocks)
}

fn roundtrip(d: &Pandoc) -> Pandoc {
    let encoded = encode_pandoc(d);
    let normalized = normalize(&encoded).expect("normalize");
    decode_pandoc(&normalized).expect("decode")
}

#[test]
fn roundtrip_header_and_inlines() {
    let d = doc(vec![
        Block::Header(
            2,
            empty_attr(),
            vec![
                Inline::Str("Hi".to_owned()),
                Inline::Space,
                Inline::Emph(vec![Inline::Str("there".to_owned())]),
            ],
        ),
        Block::Para(vec![
            Inline::Quoted(QuoteType::DoubleQuote, vec![Inline::Str("q".to_owned())]),
            Inline::LineBreak,
            Inline::Math(MathType::InlineMath, "x^2".to_owned()),
            Inline::RawInline(Format("tex".to_owned()), "\\par".to_owned()),
            Inline::Link(
                vec![Inline::Str("here".to_owned())],
                ("https://example.test".to_owned(), "title".to_owned()),
            ),
            Inline::Note(vec![Block::Plain(vec![Inline::Str("n".to_owned())])]),
        ]),
    ]);
    assert_eq!(roundtrip(&d), d);
}

#[test]
fn roundtrip_lists_and_table() {
    let d = doc(vec![
        Block::OrderedList(
            (3, ListNumberStyle::LowerRoman, ListNumberDelim::OneParen),
            vec![vec![Block::Plain(vec![Inline::Str("a".to_owned())])], vec![Block::Null]],
        ),
        Block::BulletList(vec![vec![Block::HorizontalRule]]),
        Block::DefinitionList(vec![(
            vec![Inline::Str("term".to_owned())],
            vec![vec![Block::Plain(vec![Inline::Str("def".to_owned())])]],
        )]),
        Block::Table(
            vec![Inline::Str("caption".to_owned())],
            vec![Alignment::AlignLeft, Alignment::AlignDefault],
            vec![JNum::Text("0.5".to_owned()), JNum::Int(0)],
            vec![vec![Block::Plain(vec![Inline::Str("h".to_owned())])], vec![]],
            vec![vec![vec![Block::Plain(vec![Inline::Str("c".to_owned())])], vec![]]],
        ),
        Block::CodeBlock(
            ("id".to_owned(), vec!["rust".to_owned()], vec![("k".to_owned(), "v".to_owned())]),
            "fn main() {}".to_owned(),
        ),
        Block::Div(empty_attr(), vec![Block::BlockQuote(vec![Block::Null])]),
    ]);
    assert_eq!(roundtrip(&d), d);
}

#[test]
fn roundtrip_citation_and_metadata() {
    let mut meta = Meta { unMeta: vec![] };
    meta.unMeta.push((
        "title".to_owned(),
        MetaValue::MetaInlines(vec![Inline::Str("T".to_owned())]),
    ));
    meta.unMeta.push((
        "flags".to_owned(),
        MetaValue::MetaMap(vec![
            ("draft".to_owned(), MetaValue::MetaBool(true)),
            ("subtitle".to_owned(), MetaValue::MetaString("s".to_owned())),
            (
                "parts".to_owned(),
                MetaValue::MetaList(vec![
                    MetaValue::MetaBlocks(vec![Block::Null]),
                    MetaValue::MetaBool(false),
                ]),
            ),
        ]),
    ));
    let d = Pandoc(
        meta,
        vec![Block::Para(vec![Inline::Cite(
            vec![Citation {
                citationId: "knuth84".to_owned(),
                citationPrefix: vec![Inline::Str("see".to_owned())],
                citationSuffix: vec![],
                citationMode: CitationMode::SuppressAuthor,
                citationNoteNum: 7,
                citationHash: -2,
            }],
            vec![Inline::Str("[1]".to_owned())],
        )])],
    );
    assert_eq!(roundtrip(&d), d);
}

/// A zero-field variant carries an empty-array payload; a three-field
/// variant carries a three-element array.
#[test]
fn arity_of_payloads() {
    let hr = pandoc_ast::enc::encode_block(&Block::HorizontalRule);
    match &hr {
        Json::Obj(entries) => {
            assert_eq!(entries.len(), 2);
            assert_eq!(entries[0].0, "t");
            assert_eq!(entries[0].1, Json::Str("HorizontalRule".to_owned()));
            assert_eq!(entries[1].0, "c");
            assert_eq!(entries[1].1, Json::Arr(vec![]));
        }
        other => panic!("not an object: {:?}", other),
    }
    let hd = pandoc_ast::enc::encode_block(&Block::Header(1, empty_attr(), vec![]));
    match &hd {
        Json::Obj(entries) => match &entries[1].1 {
            Json::Arr(parts) => assert_eq!(parts.len(), 3),
            other => panic!("not an array: {:?}", other),
        },
        other => panic!("not an object: {:?}", other),
    }
    let n = normalize(&hr).expect("normalize");
    assert_eq!(pandoc_ast::dec::decode_block(&n).expect("decode"), Block::HorizontalRule);
}

/// A two-key `{"t","c"}` object whose tag is not a string is rejected.
#[test]
fn non_string_tag_is_rejected() {
    let j = Json::Obj(vec![
        ("t".to_owned(), Json::Num(JNum::Int(1))),
        ("c".to_owned(), Json::Arr(vec![])),
    ]);
    match normalize(&j) {
        Err(Error::Decode(DecodeKind::NonStringTag, _)) => {}
        other => panic!("expected a non-string-tag error, got {:?}", other),
    }
}

/// An object without exactly the keys `t` and `c` is kept as an
/// ordinary object; one with exactly those keys is treated as a tag
/// wrapper even in a metadata position, and rejected since its tag
/// value is an object.
#[test]
fn two_key_metadata_map_collides_with_tag_shape() {
    let safe = doc(vec![]);
    let mut safe = safe;
    safe.0.unMeta.push((
        "t".to_owned(),
        MetaValue::MetaString("x".to_owned()),
    ));
    // one key named "t" alone is fine
    assert_eq!(roundtrip(&safe), safe);

    let mut collides = doc(vec![]);
    collides.0.unMeta.push(("t".to_owned(), MetaValue::MetaString("x".to_owned())));
    collides.0.unMeta.push(("c".to_owned(), MetaValue::MetaBool(true)));
    let encoded = encode_pandoc(&collides);
    match normalize(&encoded) {
        Err(Error::Decode(DecodeKind::NonStringTag, _)) => {}
        other => panic!("expected the tag heuristic to reject, got {:?}", other),
    }
}

#[test]
fn unknown_variant_and_bad_arity() {
    let bogus = Json::Obj(vec![
        ("t".to_owned(), Json::Str("Bogus".to_owned())),
        ("c".to_owned(), Json::Arr(vec![])),
    ]);
    let n = normalize(&bogus).expect("normalize");
    match pandoc_ast::dec::decode_block(&n) {
        Err(Error::Decode(DecodeKind::UnknownVariant, _)) => {}
        other => panic!("expected unknown variant, got {:?}", other),
    }
    let short = Json::Obj(vec![
        ("t".to_owned(), Json::Str("Header".to_owned())),
        ("c".to_owned(), Json::Arr(vec![])),
    ]);
    let n = normalize(&short).expect("normalize");
    match pandoc_ast::dec::decode_block(&n) {
        Err(Error::Decode(DecodeKind::BadArity, _)) => {}
        other => panic!("expected an arity error, got {:?}", other),
    }
}

#[test]
fn leaf_enums_roundtrip() {
    for a in [
        Alignment::AlignLeft,
        Alignment::AlignRight,
        Alignment::AlignCenter,
        Alignment::AlignDefault,
    ] {
        let e = pandoc_ast::enc::encode_alignment(&a);
        let n = normalize(&e).expect("normalize");
        assert_eq!(pandoc_ast::dec::decode_alignment(&n).expect("decode"), a);
    }
    for s in [
        ListNumberStyle::DefaultStyle,
        ListNumberStyle::Example,
        ListNumberStyle::Decimal,
        ListNumberStyle::LowerRoman,
        ListNumberStyle::UpperRoman,
        ListNumberStyle::LowerAlpha,
        ListNumberStyle::UpperAlpha,
    ] {
        let e = pandoc_ast::enc::encode_list_number_style(&s);
        let n = normalize(&e).expect("normalize");
        assert_eq!(pandoc_ast::dec::decode_list_number_style(&n).expect("decode"), s);
    }
    for m in [
        CitationMode::AuthorInText,
        CitationMode::SuppressAuthor,
        CitationMode::NormalCitation,
    ] {
        let e = pandoc_ast::enc::encode_citation_mode(&m);
        let n = normalize(&e).expect("normalize");
        assert_eq!(pandoc_ast::dec::decode_citation_mode(&n).expect("decode"), m);
    }
}

#[test]
fn filter_end_to_end_header() {
    let input = r#"[{"unMeta":{}}, [{"t":"Header","c":[1,["",[],[]],[{"t":"Str","c":"Hi"}]]}]]"#;
    let out = filter(input.to_owned(), |d| {
        assert_eq!(
            d,
            Pandoc(
                Meta { unMeta: vec![] },
                vec![Block::Header(
                    1,
                    (String::new(), vec![], vec![]),
                    vec![Inline::Str("Hi".to_owned())],
                )],
            )
        );
        d
    })
    .expect("filter");
    let got: serde_json::Value = serde_json::from_str(&out).expect("output parses");
    let want: serde_json::Value = serde_json::from_str(input).expect("input parses");
    assert_eq!(got, want);
}

#[test]
fn filter_end_to_end_table_widths() {
    let input = r#"[{"unMeta":{"k":{"t":"MetaBool","c":true}}},[{"t":"Table","c":[[],[{"t":"AlignLeft","c":[]}],[0.25],[[]],[[[]]]]}]]"#;
    let out = filter(input.to_owned(), |d| d).expect("filter");
    let got: serde_json::Value = serde_json::from_str(&out).expect("output parses");
    let want: serde_json::Value = serde_json::from_str(input).expect("input parses");
    assert_eq!(got, want);
}

#[test]
fn filter_transform_applies() {
    let input = r#"[{"unMeta":{}},[{"t":"HorizontalRule","c":[]}]]"#;
    let out = filter(input.to_owned(), |mut d| {
        d.1.push(Block::Null);
        d
    })
    .expect("filter");
    let got: serde_json::Value = serde_json::from_str(&out).expect("output parses");
    let want: serde_json::Value = serde_json::from_str(
        r#"[{"unMeta":{}},[{"t":"HorizontalRule","c":[]},{"t":"Null","c":[]}]]"#,
    )
    .expect("parses");
    assert_eq!(got, want);
}

#[test]
fn filter_reports_parse_error() {
    match filter("not json".to_owned(), |d| d) {
        Err(Error::Parse(_)) => {}
        other => panic!("expected a parse error, got {:?}", other),
    }
}

#[test]
fn filter_reports_decode_error() {
    // valid JSON, wrong shape for a document
    match filter("{\"a\": 1}".to_owned(), |d| d) {
        Err(Error::Decode(_, _)) => {}
        other => panic!("expected a decode error, got {:?}", other),
    }
}

#[test]
fn citation_keys_decode_in_any_order() {
    // serde_json object keys come back sorted, not in encoding order
    let input = r#"[{"unMeta":{}},[{"t":"Para","c":[{"t":"Cite","c":[[{"citationHash":0,"citationId":"a","citationMode":{"t":"NormalCitation","c":[]},"citationNoteNum":1,"citationPrefix":[],"citationSuffix":[]}],[]]}]}]]"#;
    let out = filter(input.to_owned(), |d| {
        match &d.1[0] {
            Block::Para(inls) => match &inls[0] {
                Inline::Cite(cs, _) => {
                    assert_eq!(cs[0].citationId, "a");
                    assert_eq!(cs[0].citationMode, CitationMode::NormalCitation);
                }
                other => panic!("not a citation: {:?}", other),
            },
            other => panic!("not a para: {:?}", other),
        }
        d
    })
    .expect("filter");
    let got: serde_json::Value = serde_json::from_str(&out).expect("output parses");
    let want: serde_json::Value = serde_json::from_str(input).expect("input parses");
    assert_eq!(got, want);
}

#[test]
fn tag_wrapper_keys_in_either_order() {
    let reversed = Json::Obj(vec![
        ("c".to_owned(), Json::Arr(vec![])),
        ("t".to_owned(), Json::Str("HorizontalRule".to_owned())),
    ]);
    let n = normalize(&reversed).expect("normalize");
    assert_eq!(pandoc_ast::dec::decode_block(&n).expect("decode"), Block::HorizontalRule);
}

#[test]
fn decode_error_path_names_the_keys() {
    // a Para whose inline payload holds an unknown variant
    let bad = Json::Obj(vec![
        ("t".to_owned(), Json::Str("Para".to_owned())),
        (
            "c".to_owned(),
            Json::Arr(vec![Json::Obj(vec![
                ("t".to_owned(), Json::Str("Bogus".to_owned())),
                ("c".to_owned(), Json::Arr(vec![])),
            ])]),
        ),
    ]);
    let n = normalize(&bad).expect("normalize");
    match pandoc_ast::dec::decode_block(&n) {
        Err(Error::Decode(DecodeKind::UnknownVariant, path)) => {
            assert_eq!(path, vec!["Para".to_owned(), "Bogus".to_owned()]);
        }
        other => panic!("expected an unknown-variant error with a path, got {:?}", other),
    }
}
