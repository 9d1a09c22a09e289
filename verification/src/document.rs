//! A structured document as a decoder of structured text hands it over:
//! nested objects, lists and scalars.

use vstd::prelude::*;
use crate::text::same_text;

verus! {

/// A structured document, or a part of one.
#[derive(Debug)]
pub enum Document {
    /// The null value.
    Null,
    /// A boolean.
    Bool(bool),
    /// A number, by what it is as a signed integer and as an unsigned
    /// integer; a number that is neither is no integer, or one beyond the
    /// integers that a document can carry.
    Number(Option<i64>, Option<u64>),
    /// A text.
    Text(String),
    /// A list of documents.
    List(Vec<Document>),
    /// An object: named documents, in the order in which the text gives
    /// them.
    Object(Vec<(String, Document)>),
}

/// The integer that a number is: what it is as an unsigned integer where
/// it is one, else what it is as a signed integer; none for a number that is
/// neither.
pub open spec fn number_of(signed: Option<i64>, unsigned: Option<u64>) -> Option<int> {
    match unsigned {
        Some(u) => Some(u as int),
        None => match signed {
            Some(i) => Some(i as int),
            None => None,
        },
    }
}

/// The integer that a number is, from what it is as a signed and as an
/// unsigned integer.
pub fn number(signed: Option<i64>, unsigned: Option<u64>) -> (n: Option<i128>)
    ensures
        match n {
            Some(x) => number_of(signed, unsigned) == Some(x as int),
            None => number_of(signed, unsigned) is None,
        },
{
    match unsigned {
        Some(u) => Some(u as i128),
        None => match signed {
            Some(i) => Some(i as i128),
            None => None,
        },
    }
}

/// The place of the first entry named `key` at or after `from`.
pub open spec fn first_index(entries: Seq<(String, Document)>, key: Seq<char>, from: int) -> Option<
    int,
>
    decreases entries.len() - from,
{
    if from < 0 || from >= entries.len() {
        None
    } else if entries[from].0@ == key {
        Some(from)
    } else {
        first_index(entries, key, from + 1)
    }
}

/// The value of the first entry named `key`.
pub open spec fn field(entries: Seq<(String, Document)>, key: Seq<char>) -> Option<Document> {
    match first_index(entries, key, 0) {
        Some(i) => Some(entries[i].1),
        None => None,
    }
}

/// `first_index` finds an entry named `key`, and none stands between `from`
/// and it; where it finds none, no entry at or after `from` has that name.
pub proof fn lemma_first_index(entries: Seq<(String, Document)>, key: Seq<char>, from: int)
    requires
        0 <= from,
    ensures
        match first_index(entries, key, from) {
            Some(i) => from <= i < entries.len() && entries[i].0@ == key && forall|j: int|
                from <= j < i ==> (#[trigger] entries[j]).0@ != key,
            None => forall|j: int| from <= j < entries.len() ==> (#[trigger] entries[j]).0@ != key,
        },
    decreases entries.len() - from,
{
    if from < entries.len() && entries[from].0@ != key {
        lemma_first_index(entries, key, from + 1);
    }
}

/// A value found in an object is a part of the object.
pub proof fn lemma_field_is_part(entries: Vec<(String, Document)>, key: Seq<char>)
    ensures
        field(entries@, key) matches Some(x) ==> decreases_to!(entries => x),
{
    lemma_first_index(entries@, key, 0);
    if let Some(i) = first_index(entries@, key, 0) {
        assert(decreases_to!(entries => entries[i]));
    }
}

/// The value of the first entry named `key`.
pub fn find<'a>(entries: &'a Vec<(String, Document)>, key: &str) -> (found: Option<&'a Document>)
    ensures
        match found {
            Some(x) => field(entries@, key@) == Some(*x),
            None => field(entries@, key@) is None,
        },
{
    let mut i: usize = 0;
    while i < entries.len()
        invariant
            0 <= i <= entries.len(),
            first_index(entries@, key@, 0) == first_index(entries@, key@, i as int),
        decreases entries.len() - i,
    {
        if same_text(entries[i].0.as_str(), key) {
            return Some(&entries[i].1);
        }
        i += 1;
    }
    None
}

} // verus!
