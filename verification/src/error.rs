//! Why a document yields no result.

use vstd::prelude::*;

verus! {

/// The two ways in which a document is unfit for extraction. Either one ends
/// a run: no pass gives a partial result.
#[derive(Debug)]
pub enum ExtractError {
    /// The text is not valid JSON. Holds the parser's own account of where
    /// and why it stopped.
    InvalidJson(serde_json::Error),
    /// The text is valid JSON, but its top-level value is not an array of
    /// objects: it is no array, or one of its elements is no object.
    ShapeMismatch,
}

} // verus!
