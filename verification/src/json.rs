//! Reading a lexicon document from JSON text.
//!
//! The text is parsed by `serde_json`. What the parser makes of a text is
//! named by `json_value`, and what one of its values holds by
//! `json_document`; the lexicon is then decoded from that document by this
//! library.

use vstd::prelude::*;
use crate::codegen::output_text;
use crate::decode::{decode_file, file_of, DecodeError};
use crate::document::Document;
use crate::schema::{LexiconFile, LexiconFileView};

verus! {

/// Why a text is not a lexicon document.
#[derive(Debug, Clone, Copy, PartialEq, Eq, Structural)]
pub enum LoadError {
    /// The text is not JSON.
    Syntax,
    /// The text is JSON, but not a lexicon document.
    Decode(DecodeError),
}

/// The fault of the JSON parser.
#[verifier::external_type_specification]
#[verifier::external_body]
pub struct ExJsonError(serde_json::Error);

/// A value of the JSON parser.
#[verifier::external_type_specification]
#[verifier::external_body]
pub struct ExJsonValue(serde_json::Value);

/// What a value of the JSON parser holds, as a document of this library.
pub uninterp spec fn json_document(v: serde_json::Value) -> Document;

/// The document that the JSON parser makes of a text; none for a text that
/// it refuses.
pub uninterp spec fn json_value(text: Seq<char>) -> Option<Document>;

/// A value of the JSON parser as a document of this library, variant by
/// variant. A number is carried by what `Number::as_i64` and
/// `Number::as_u64` return, as they are; the entries of an object keep the
/// order in which `Map::iter` gives them. The contract only names the
/// result.
#[verifier::external_body]
fn from_json(v: &serde_json::Value) -> (d: Document)
    ensures
        d == json_document(*v),
{
    match v {
        serde_json::Value::Null => Document::Null,
        serde_json::Value::Bool(b) => Document::Bool(*b),
        serde_json::Value::Number(n) => Document::Number(n.as_i64(), n.as_u64()),
        serde_json::Value::String(s) => Document::Text(s.clone()),
        serde_json::Value::Array(a) => Document::List(a.iter().map(from_json).collect()),
        serde_json::Value::Object(m) => Document::Object(
            m.iter().map(|(k, v)| (k.clone(), from_json(v))).collect(),
        ),
    }
}

/// `serde_json::from_str`, for a `serde_json::Value`. The contract only
/// names the result: a text is accepted or refused, and what the value of
/// an accepted text holds is the same whenever the text is the same.
#[verifier::external_body]
fn parse_json(text: &str) -> (r: Result<serde_json::Value, serde_json::Error>)
    ensures
        r is Ok <==> json_value(text@) is Some,
        r matches Ok(v) ==> json_value(text@) == Some(json_document(v)),
{
    serde_json::from_str(text)
}

/// The document that a text stands for.
pub open spec fn loaded(text: Seq<char>) -> Result<LexiconFileView, LoadError> {
    match json_value(text) {
        None => Err(LoadError::Syntax),
        Some(v) => match file_of(v) {
            Ok(f) => Ok(f),
            Err(e) => Err(LoadError::Decode(e)),
        },
    }
}

/// Reading the same text again gives the same document, and so the same
/// output.
pub proof fn lemma_loading_repeatable(text: Seq<char>, first: LexiconFileView, second: LexiconFileView)
    requires
        loaded(text) == Ok::<LexiconFileView, LoadError>(first),
        loaded(text) == Ok::<LexiconFileView, LoadError>(second),
    ensures
        first == second,
        output_text(first.defs) == output_text(second.defs),
{
}

/// Parses a JSON text into a document.
pub fn parse_document(text: &str) -> (r: Result<Document, LoadError>)
    ensures
        match r {
            Ok(v) => json_value(text@) == Some(v),
            Err(e) => e == LoadError::Syntax && json_value(text@) is None,
        },
{
    match parse_json(text) {
        Ok(v) => Ok(from_json(&v)),
        Err(_) => Err(LoadError::Syntax),
    }
}

/// Reads a lexicon document from JSON text.
///
/// Where the text gives a name twice in one object, the parser hands over
/// one entry: at the place of the first, with the value of the last. So a
/// definition or property that the text repeats stands at its first place,
/// with its last node; the later place that the decoder gives to a repeated
/// name of a document is never seen from a text.
pub fn load_lexicon(text: &str) -> (r: Result<LexiconFile, LoadError>)
    ensures
        match r {
            Ok(f) => loaded(text@) == Ok::<LexiconFileView, LoadError>(f@),
            Err(e) => loaded(text@) == Err::<LexiconFileView, LoadError>(e),
        },
{
    match parse_document(text) {
        Err(e) => Err(e),
        Ok(v) => match decode_file(&v) {
            Ok(f) => Ok(f),
            Err(e) => Err(LoadError::Decode(e)),
        },
    }
}

} // verus!
