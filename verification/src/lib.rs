//! A document-model library for the pandoc JSON interchange format.
//!
//! The library defines the document tree (`Pandoc`, `Block`, `Inline`,
//! metadata and leaf types), a generic JSON value (`Json`), the
//! recursive tag rewrite that turns external `{"t": name, "c": payload}`
//! wrappers into single-key objects, a typed decoder and encoder between
//! `Json` and the document tree, and the `filter` entry point that ties
//! them to serialized text.

use vstd::prelude::*;

pub mod dec;
pub mod enc;
pub mod error;
pub mod json;
pub mod laws;
pub mod model;
pub mod norm;
pub mod wire;

pub use dec::decode_pandoc;
pub use enc::encode_pandoc;
pub use error::DecodeKind;
pub use error::Error;
pub use json::JNum;
pub use json::JNumV;
pub use json::Json;
pub use json::JsonV;
pub use model::Alignment;
pub use model::Attr;
pub use model::Block;
pub use model::Citation;
pub use model::CitationMode;
pub use model::Format;
pub use model::Inline;
pub use model::Int;
pub use model::ListAttributes;
pub use model::ListNumberDelim;
pub use model::ListNumberStyle;
pub use model::MathType;
pub use model::Meta;
pub use model::MetaValue;
pub use model::Pandoc;
pub use model::QuoteType;
pub use model::TableCell;
pub use model::Target;
pub use norm::normalize;

verus! {

/// Decode a serialized document, hand it to `transform`, and serialize
/// the transformed document back to text. Fails with `Error::Parse` on
/// text that is not JSON and with `Error::Decode` on JSON that does not
/// match the document model; on any other input it succeeds.
/// `Error::Encode` is the reportable kind for a failure of the final
/// serialization; the contract states that it is never returned, since
/// serializing an encoded document cannot fail.
pub fn filter<F: FnOnce(Pandoc) -> Pandoc>(json: String, transform: F) -> (r: Result<
    String,
    Error,
>)
    requires
        forall|d: Pandoc| call_requires(transform, (d,)),
    ensures
        match r {
            Ok(out) => {
                &&& wire::parse_of(json@) is Some
                &&& norm::norm(wire::parse_of(json@).unwrap()) is Some
                &&& dec::dec_pandoc(norm::norm(wire::parse_of(json@).unwrap()).unwrap()) is Some
                &&& exists|din: Pandoc, dout: Pandoc|
                    din@ == dec::dec_pandoc(
                        norm::norm(wire::parse_of(json@).unwrap()).unwrap(),
                    ).unwrap() && #[trigger] call_ensures(transform, (din,), dout) && out@
                        == wire::print_of(enc::enc_pandoc(dout@))
            },
            Err(e) => match e {
                Error::Parse(_) => wire::parse_of(json@) is None,
                Error::Decode(_, _) => wire::parse_of(json@) is Some && (norm::norm(
                    wire::parse_of(json@).unwrap(),
                ) is None || dec::dec_pandoc(
                    norm::norm(wire::parse_of(json@).unwrap()).unwrap(),
                ) is None),
                Error::Encode(_) => false,
            },
        },
{
    let parsed = match wire::parse_json(json.as_str()) {
        Ok(j) => j,
        Err(msg) => {
            return Err(Error::Parse(msg));
        },
    };
    let normalized = match norm::normalize(&parsed) {
        Ok(n) => n,
        Err(e) => {
            return Err(e);
        },
    };
    let doc = match dec::decode_pandoc(&normalized) {
        Ok(d) => d,
        Err(e) => {
            return Err(e);
        },
    };
    let out = transform(doc);
    let encoded = enc::encode_pandoc(&out);
    match wire::print_json(encoded) {
        Ok(s) => Ok(s),
        Err(msg) => Err(Error::Encode(msg)),
    }
}

} // verus!
