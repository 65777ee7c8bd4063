//! Error kinds of the codec pipeline.

use vstd::prelude::*;

verus! {

/// Why a decode failed.
#[derive(Debug, Clone, Copy, PartialEq, Eq, Structural)]
pub enum DecodeKind {
    /// A two-key `{"t","c"}` object whose `"t"` value is not a string.
    NonStringTag,
    /// A single-key object whose key names no variant of the target type.
    UnknownVariant,
    /// A payload whose element count does not match the variant's arity.
    BadArity,
    /// A value of the wrong JSON shape for its position.
    BadShape,
}

/// An error of the pipeline: the input text is not JSON, the JSON does
/// not match the document model (with the kind and the object-key chain
/// that leads to the offending value), or serialization itself failed.
#[derive(Debug, PartialEq, Eq)]
pub enum Error {
    Parse(String),
    Decode(DecodeKind, Vec<String>),
    Encode(String),
}

impl Error {
    /// A decode error at the current position: the key chain is empty.
    pub fn decode(kind: DecodeKind) -> (r: Error)
        ensures
            r matches Error::Decode(k, p) && k == kind && p@.len() == 0,
    {
        Error::Decode(kind, Vec::new())
    }

    /// The same error, with `key` prepended to the object-key chain;
    /// any other error is returned unchanged.
    pub fn in_key(self, key: &String) -> (r: Error)
        ensures
            match self {
                Error::Decode(k, path) => r matches Error::Decode(k2, p2) && k2 == k
                    && p2@.len() == path@.len() + 1 && p2@[0]@ == key@ && (forall|i: int|
                    1 <= i < p2@.len() ==> #[trigger] p2@[i] == path@[i - 1]),
                _ => r == self,
            },
    {
        match self {
            Error::Decode(k, mut path) => {
                path.insert(0, key.clone());
                Error::Decode(k, path)
            },
            other => other,
        }
    }
}

} // verus!
