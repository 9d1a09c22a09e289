//! Decoding a structured document into the schema type model.
//!
//! A definition node is an object whose `type` names its kind; the kind
//! decides which other fields are read. A field that may be absent is also
//! taken as absent where it is null. Fields that the kind does not know are
//! passed over. Of two definitions or properties of one name the later
//! stands, at the later place; a document read from JSON text never gives a
//! name twice. The first fault met, in the order in which the fields are
//! read, ends the decoding of the whole document.

use vstd::prelude::*;
use crate::document::{field, find, lemma_field_is_part, number, number_of, Document};
use crate::node_map::{with_entry, NodeMap};
use crate::schema::{
    errors_view, input_view, message_view, optional_object_view, output_view, schema_view,
    ArrayType, ArrayTypeView, BlobType, BlobTypeView, BooleanType, BytesType, InputType,
    InputTypeView, IntegerType, IntegerTypeView, LexiconData, LexiconDataType,
    LexiconDataTypeView, LexiconDataView, LexiconFile, LexiconFileView, ObjectType,
    ObjectTypeView, OutputType, OutputTypeView, ParamsType, ParamsTypeView, ProcedureType,
    ProcedureTypeView, QueryType, QueryTypeView, RecordType, RecordTypeView, RefType,
    RefTypeView, SomeError, SomeErrorView, StringType, StringTypeView, SubscribeMessage,
    SubscribeMessageView, SubscriptionType, SubscriptionTypeView, UnionType, UnionTypeView,
};
use crate::text::same_text;

verus! {

/// Why a document is not a lexicon.
#[derive(Debug, Clone, Copy, PartialEq, Eq, Structural)]
pub enum DecodeError {
    /// A value is not of the shape that its place asks for.
    UnexpectedShape,
    /// A field that has no default is absent.
    MissingField,
    /// A definition node names a kind that is not known.
    UnknownType,
}

/// Whether a result is the expected one: the expected fault, or a value
/// whose view, taken by `view`, is the expected value.
pub open spec fn agrees<T, V>(
    r: Result<T, DecodeError>,
    expected: Result<V, DecodeError>,
    view: spec_fn(T) -> V,
) -> bool {
    match r {
        Ok(x) => expected == Ok::<V, DecodeError>(view(x)),
        Err(e) => expected == Err::<V, DecodeError>(e),
    }
}

/// A text that may be absent.
pub open spec fn optional_text_of(found: Option<Document>) -> Result<Option<Seq<char>>, DecodeError> {
    match found {
        None => Ok(None),
        Some(Document::Null) => Ok(None),
        Some(Document::Text(s)) => Ok(Some(s@)),
        Some(_) => Err(DecodeError::UnexpectedShape),
    }
}

/// A text that must be present.
pub open spec fn required_text_of(found: Option<Document>) -> Result<Seq<char>, DecodeError> {
    match found {
        None => Err(DecodeError::MissingField),
        Some(Document::Text(s)) => Ok(s@),
        Some(_) => Err(DecodeError::UnexpectedShape),
    }
}

/// A signed integer that may be absent.
pub open spec fn optional_i64_of(found: Option<Document>) -> Result<Option<i64>, DecodeError> {
    match found {
        None => Ok(None),
        Some(Document::Null) => Ok(None),
        Some(Document::Number(s, u)) => match number_of(s, u) {
            Some(n) => if i64::MIN <= n <= i64::MAX {
                Ok(Some(n as i64))
            } else {
                Err(DecodeError::UnexpectedShape)
            },
            None => Err(DecodeError::UnexpectedShape),
        },
        Some(_) => Err(DecodeError::UnexpectedShape),
    }
}

/// An unsigned integer that may be absent.
pub open spec fn optional_u64_of(found: Option<Document>) -> Result<Option<u64>, DecodeError> {
    match found {
        None => Ok(None),
        Some(Document::Null) => Ok(None),
        Some(Document::Number(s, u)) => match number_of(s, u) {
            Some(n) => if 0 <= n <= u64::MAX {
                Ok(Some(n as u64))
            } else {
                Err(DecodeError::UnexpectedShape)
            },
            None => Err(DecodeError::UnexpectedShape),
        },
        Some(_) => Err(DecodeError::UnexpectedShape),
    }
}

/// A small unsigned integer that must be present.
pub open spec fn required_u32_of(found: Option<Document>) -> Result<u32, DecodeError> {
    match found {
        None => Err(DecodeError::MissingField),
        Some(Document::Number(s, u)) => match number_of(s, u) {
            Some(n) => if 0 <= n <= u32::MAX {
                Ok(n as u32)
            } else {
                Err(DecodeError::UnexpectedShape)
            },
            None => Err(DecodeError::UnexpectedShape),
        },
        Some(_) => Err(DecodeError::UnexpectedShape),
    }
}

/// A boolean that may be absent.
pub open spec fn optional_bool_of(found: Option<Document>) -> Result<Option<bool>, DecodeError> {
    match found {
        None => Ok(None),
        Some(Document::Null) => Ok(None),
        Some(Document::Bool(b)) => Ok(Some(b)),
        Some(_) => Err(DecodeError::UnexpectedShape),
    }
}

/// Whether every item is a text.
pub open spec fn all_text(items: Seq<Document>) -> bool {
    forall|i: int| 0 <= i < items.len() ==> (#[trigger] items[i]) is Text
}

/// The texts of a list of texts.
pub open spec fn texts_of(items: Seq<Document>) -> Result<Seq<Seq<char>>, DecodeError> {
    if all_text(items) {
        Ok(Seq::new(items.len(), |i: int| items[i]->Text_0@))
    } else {
        Err(DecodeError::UnexpectedShape)
    }
}

/// A list of texts that may be absent.
pub open spec fn optional_texts_of(found: Option<Document>) -> Result<
    Option<Seq<Seq<char>>>,
    DecodeError,
> {
    match found {
        None => Ok(None),
        Some(Document::Null) => Ok(None),
        Some(Document::List(items)) => match texts_of(items@) {
            Ok(texts) => Ok(Some(texts)),
            Err(e) => Err(e),
        },
        Some(_) => Err(DecodeError::UnexpectedShape),
    }
}

/// A list of texts that is empty where it is absent.
pub open spec fn texts_or_empty_of(found: Option<Document>) -> Result<Seq<Seq<char>>, DecodeError> {
    match found {
        None => Ok(Seq::empty()),
        Some(Document::List(items)) => texts_of(items@),
        Some(_) => Err(DecodeError::UnexpectedShape),
    }
}

/// A list of texts that must be present.
pub open spec fn required_texts_of(found: Option<Document>) -> Result<Seq<Seq<char>>, DecodeError> {
    match found {
        None => Err(DecodeError::MissingField),
        Some(Document::List(items)) => texts_of(items@),
        Some(_) => Err(DecodeError::UnexpectedShape),
    }
}

/// Whether a value is a signed integer.
pub open spec fn is_i64(v: Document) -> bool {
    v matches Document::Number(s, u) && number_of(s, u) matches Some(n) && i64::MIN <= n
        <= i64::MAX
}

/// The signed integer that a value is.
pub open spec fn i64_of(v: Document) -> i64 {
    number_of(v->Number_0, v->Number_1)->Some_0 as i64
}

/// Whether every item is a signed integer.
pub open spec fn all_i64(items: Seq<Document>) -> bool {
    forall|i: int| 0 <= i < items.len() ==> is_i64(#[trigger] items[i])
}

/// The integers of a list of signed integers.
pub open spec fn i64s_of(items: Seq<Document>) -> Result<Seq<i64>, DecodeError> {
    if all_i64(items) {
        Ok(Seq::new(items.len(), |i: int| i64_of(items[i])))
    } else {
        Err(DecodeError::UnexpectedShape)
    }
}

/// A list of signed integers that may be absent.
pub open spec fn optional_i64s_of(found: Option<Document>) -> Result<Option<Seq<i64>>, DecodeError> {
    match found {
        None => Ok(None),
        Some(Document::Null) => Ok(None),
        Some(Document::List(items)) => match i64s_of(items@) {
            Ok(list) => Ok(Some(list)),
            Err(e) => Err(e),
        },
        Some(_) => Err(DecodeError::UnexpectedShape),
    }
}

/// A named error.
pub open spec fn error_of(v: Document) -> Result<SomeErrorView, DecodeError> {
    match v {
        Document::Object(entries) => {
            let name = required_text_of(field(entries@, "name"@));
            let description = optional_text_of(field(entries@, "description"@));
            if name is Err {
                Err(name->Err_0)
            } else if description is Err {
                Err(description->Err_0)
            } else {
                Ok(SomeErrorView { name: name->Ok_0, description: description->Ok_0 })
            }
        },
        _ => Err(DecodeError::UnexpectedShape),
    }
}

/// The first `n` named errors of a list.
pub open spec fn errors_prefix(items: Seq<Document>, n: nat) -> Result<Seq<SomeErrorView>, DecodeError>
    decreases n,
{
    if n == 0 || n > items.len() {
        Ok(Seq::empty())
    } else {
        match errors_prefix(items, (n - 1) as nat) {
            Err(e) => Err(e),
            Ok(front) => match error_of(items[n - 1]) {
                Err(e) => Err(e),
                Ok(x) => Ok(front.push(x)),
            },
        }
    }
}

/// A list of named errors that is empty where it is absent.
pub open spec fn errors_or_empty_of(found: Option<Document>) -> Result<
    Seq<SomeErrorView>,
    DecodeError,
> {
    match found {
        None => Ok(Seq::empty()),
        Some(Document::List(items)) => errors_prefix(items@, items@.len()),
        Some(_) => Err(DecodeError::UnexpectedShape),
    }
}

/// The payload of a string.
pub open spec fn string_of(entries: Seq<(String, Document)>) -> Result<StringTypeView, DecodeError> {
    let format = optional_text_of(field(entries, "format"@));
    let max_length = optional_i64_of(field(entries, "maxLength"@));
    let min_length = optional_i64_of(field(entries, "minLength"@));
    let max_graphemes = optional_i64_of(field(entries, "maxGraphemes"@));
    let min_graphemes = optional_i64_of(field(entries, "minGraphemes"@));
    let known_values = optional_texts_of(field(entries, "knownValues"@));
    let allowed_enum = optional_texts_of(field(entries, "enum"@));
    let default = optional_text_of(field(entries, "default"@));
    let constant = optional_text_of(field(entries, "const"@));
    if format is Err {
        Err(format->Err_0)
    } else if max_length is Err {
        Err(max_length->Err_0)
    } else if min_length is Err {
        Err(min_length->Err_0)
    } else if max_graphemes is Err {
        Err(max_graphemes->Err_0)
    } else if min_graphemes is Err {
        Err(min_graphemes->Err_0)
    } else if known_values is Err {
        Err(known_values->Err_0)
    } else if allowed_enum is Err {
        Err(allowed_enum->Err_0)
    } else if default is Err {
        Err(default->Err_0)
    } else if constant is Err {
        Err(constant->Err_0)
    } else {
        Ok(
            StringTypeView {
                format: format->Ok_0,
                max_length: max_length->Ok_0,
                min_length: min_length->Ok_0,
                max_graphemes: max_graphemes->Ok_0,
                min_graphemes: min_graphemes->Ok_0,
                known_values: known_values->Ok_0,
                allowed_enum: allowed_enum->Ok_0,
                default: default->Ok_0,
                constant: constant->Ok_0,
            },
        )
    }
}

/// The payload of a byte string.
pub open spec fn bytes_of(entries: Seq<(String, Document)>) -> Result<BytesType, DecodeError> {
    let max_length = optional_u64_of(field(entries, "maxLength"@));
    let min_length = optional_u64_of(field(entries, "minLength"@));
    if max_length is Err {
        Err(max_length->Err_0)
    } else if min_length is Err {
        Err(min_length->Err_0)
    } else {
        Ok(BytesType { max_length: max_length->Ok_0, min_length: min_length->Ok_0 })
    }
}

/// The payload of a blob.
pub open spec fn blob_of(entries: Seq<(String, Document)>) -> Result<BlobTypeView, DecodeError> {
    let accept = required_texts_of(field(entries, "accept"@));
    let max_size = optional_i64_of(field(entries, "maxSize"@));
    if accept is Err {
        Err(accept->Err_0)
    } else if max_size is Err {
        Err(max_size->Err_0)
    } else {
        Ok(BlobTypeView { accept: accept->Ok_0, max_size: max_size->Ok_0 })
    }
}

/// The payload of a union.
pub open spec fn union_of(entries: Seq<(String, Document)>) -> Result<UnionTypeView, DecodeError> {
    let refs = required_texts_of(field(entries, "refs"@));
    let closed = optional_bool_of(field(entries, "closed"@));
    if refs is Err {
        Err(refs->Err_0)
    } else if closed is Err {
        Err(closed->Err_0)
    } else {
        Ok(UnionTypeView { refs: refs->Ok_0, closed: closed->Ok_0 })
    }
}

/// The payload of a reference.
pub open spec fn ref_of(entries: Seq<(String, Document)>) -> Result<RefTypeView, DecodeError> {
    match required_text_of(field(entries, "ref"@)) {
        Ok(reference) => Ok(RefTypeView { reference }),
        Err(e) => Err(e),
    }
}

/// The payload of a boolean.
pub open spec fn boolean_of(entries: Seq<(String, Document)>) -> Result<BooleanType, DecodeError> {
    let default = optional_bool_of(field(entries, "default"@));
    let constant = optional_bool_of(field(entries, "const"@));
    if default is Err {
        Err(default->Err_0)
    } else if constant is Err {
        Err(constant->Err_0)
    } else {
        Ok(BooleanType { default: default->Ok_0, constant: constant->Ok_0 })
    }
}

/// The payload of an integer.
pub open spec fn integer_of(entries: Seq<(String, Document)>) -> Result<IntegerTypeView, DecodeError> {
    let minimum = optional_i64_of(field(entries, "minimum"@));
    let maximum = optional_i64_of(field(entries, "maximum"@));
    let allowed_enum = optional_i64s_of(field(entries, "enum"@));
    let default = optional_i64_of(field(entries, "default"@));
    let constant = optional_i64_of(field(entries, "const"@));
    if minimum is Err {
        Err(minimum->Err_0)
    } else if maximum is Err {
        Err(maximum->Err_0)
    } else if allowed_enum is Err {
        Err(allowed_enum->Err_0)
    } else if default is Err {
        Err(default->Err_0)
    } else if constant is Err {
        Err(constant->Err_0)
    } else {
        Ok(
            IntegerTypeView {
                minimum: minimum->Ok_0,
                maximum: maximum->Ok_0,
                allowed_enum: allowed_enum->Ok_0,
                default: default->Ok_0,
                constant: constant->Ok_0,
            },
        )
    }
}

/// The definition node that a value stands for.
pub open spec fn node_of(v: Document) -> Result<LexiconDataView, DecodeError>
    decreases v, 0nat,
{
    match v {
        Document::Object(entries) => match required_text_of(field(entries@, "type"@)) {
            Err(e) => Err(e),
            Ok(tag) => match data_of(entries, tag) {
                Err(e) => Err(e),
                Ok(data) => match optional_text_of(field(entries@, "description"@)) {
                    Err(e) => Err(e),
                    Ok(description) => Ok(LexiconDataView { data, description }),
                },
            },
        },
        _ => Err(DecodeError::UnexpectedShape),
    }
}

/// The first `n` named nodes of an object, in its order. A name that is
/// given again takes the later node and the later place.
pub open spec fn nodes_prefix(props: Vec<(String, Document)>, n: nat) -> Result<
    Seq<(Seq<char>, LexiconDataView)>,
    DecodeError,
>
    decreases props, n,
{
    if n == 0 || n > props.len() {
        Ok(Seq::empty())
    } else {
        match nodes_prefix(props, (n - 1) as nat) {
            Err(e) => Err(e),
            Ok(front) => match node_of(props[n - 1].1) {
                Err(e) => Err(e),
                Ok(node) => Ok(with_entry(front, props[n - 1].0@, node)),
            },
        }
    }
}

/// The named nodes of the object under `key`, which must be present.
pub open spec fn nodes_in(entries: Vec<(String, Document)>, key: Seq<char>) -> Result<
    Seq<(Seq<char>, LexiconDataView)>,
    DecodeError,
>
    decreases entries, 1nat,
{
    match field(entries@, key) {
        None => Err(DecodeError::MissingField),
        Some(Document::Object(props)) => {
            proof {
                lemma_field_is_part(entries, key);
            }
            nodes_prefix(props, props@.len())
        },
        Some(_) => Err(DecodeError::UnexpectedShape),
    }
}

/// The node under `key`, which must be present.
pub open spec fn required_node_in(entries: Vec<(String, Document)>, key: Seq<char>) -> Result<
    LexiconDataView,
    DecodeError,
>
    decreases entries, 1nat,
{
    match field(entries@, key) {
        None => Err(DecodeError::MissingField),
        Some(item) => {
            proof {
                lemma_field_is_part(entries, key);
            }
            node_of(item)
        },
    }
}

/// The node under `key`, which may be absent.
pub open spec fn optional_node_in(entries: Vec<(String, Document)>, key: Seq<char>) -> Result<
    Option<Box<LexiconDataView>>,
    DecodeError,
>
    decreases entries, 1nat,
{
    match field(entries@, key) {
        None => Ok(None),
        Some(Document::Null) => Ok(None),
        Some(item) => {
            proof {
                lemma_field_is_part(entries, key);
            }
            match node_of(item) {
                Ok(node) => Ok(Some(Box::new(node))),
                Err(e) => Err(e),
            }
        },
    }
}

/// The payload of an object.
pub open spec fn object_of(entries: Vec<(String, Document)>) -> Result<ObjectTypeView, DecodeError>
    decreases entries, 2nat,
{
    let required = texts_or_empty_of(field(entries@, "required"@));
    let nullable = texts_or_empty_of(field(entries@, "nullable"@));
    let properties = nodes_in(entries, "properties"@);
    if required is Err {
        Err(required->Err_0)
    } else if nullable is Err {
        Err(nullable->Err_0)
    } else if properties is Err {
        Err(properties->Err_0)
    } else {
        Ok(
            ObjectTypeView {
                required: required->Ok_0,
                nullable: nullable->Ok_0,
                properties: properties->Ok_0,
            },
        )
    }
}

/// The object under `key`, which must be present.
pub open spec fn required_object_in(entries: Vec<(String, Document)>, key: Seq<char>) -> Result<
    ObjectTypeView,
    DecodeError,
>
    decreases entries, 1nat,
{
    match field(entries@, key) {
        None => Err(DecodeError::MissingField),
        Some(Document::Object(sub)) => {
            proof {
                lemma_field_is_part(entries, key);
            }
            object_of(sub)
        },
        Some(_) => Err(DecodeError::UnexpectedShape),
    }
}

/// The object under `key`, which may be absent.
pub open spec fn optional_object_in(entries: Vec<(String, Document)>, key: Seq<char>) -> Result<
    Option<ObjectTypeView>,
    DecodeError,
>
    decreases entries, 1nat,
{
    match field(entries@, key) {
        None => Ok(None),
        Some(Document::Null) => Ok(None),
        Some(Document::Object(sub)) => {
            proof {
                lemma_field_is_part(entries, key);
            }
            match object_of(sub) {
                Ok(o) => Ok(Some(o)),
                Err(e) => Err(e),
            }
        },
        Some(_) => Err(DecodeError::UnexpectedShape),
    }
}

/// What a request returns.
pub open spec fn output_of(entries: Vec<(String, Document)>) -> Result<OutputTypeView, DecodeError>
    decreases entries, 2nat,
{
    let description = optional_text_of(field(entries@, "description"@));
    let encoding = required_text_of(field(entries@, "encoding"@));
    let schema = optional_node_in(entries, "schema"@);
    if description is Err {
        Err(description->Err_0)
    } else if encoding is Err {
        Err(encoding->Err_0)
    } else if schema is Err {
        Err(schema->Err_0)
    } else {
        Ok(
            OutputTypeView {
                description: description->Ok_0,
                encoding: encoding->Ok_0,
                schema: schema->Ok_0,
            },
        )
    }
}

/// The output under `key`, which may be absent.
pub open spec fn output_in(entries: Vec<(String, Document)>, key: Seq<char>) -> Result<
    Option<OutputTypeView>,
    DecodeError,
>
    decreases entries, 1nat,
{
    match field(entries@, key) {
        None => Ok(None),
        Some(Document::Null) => Ok(None),
        Some(Document::Object(sub)) => {
            proof {
                lemma_field_is_part(entries, key);
            }
            match output_of(sub) {
                Ok(o) => Ok(Some(o)),
                Err(e) => Err(e),
            }
        },
        Some(_) => Err(DecodeError::UnexpectedShape),
    }
}

/// What a procedure takes.
pub open spec fn input_of(entries: Vec<(String, Document)>) -> Result<InputTypeView, DecodeError>
    decreases entries, 2nat,
{
    let encoding = required_text_of(field(entries@, "encoding"@));
    let schema = optional_node_in(entries, "schema"@);
    if encoding is Err {
        Err(encoding->Err_0)
    } else if schema is Err {
        Err(schema->Err_0)
    } else {
        Ok(InputTypeView { encoding: encoding->Ok_0, schema: schema->Ok_0 })
    }
}

/// The input under `key`, which may be absent.
pub open spec fn input_in(entries: Vec<(String, Document)>, key: Seq<char>) -> Result<
    Option<InputTypeView>,
    DecodeError,
>
    decreases entries, 1nat,
{
    match field(entries@, key) {
        None => Ok(None),
        Some(Document::Null) => Ok(None),
        Some(Document::Object(sub)) => {
            proof {
                lemma_field_is_part(entries, key);
            }
            match input_of(sub) {
                Ok(i) => Ok(Some(i)),
                Err(e) => Err(e),
            }
        },
        Some(_) => Err(DecodeError::UnexpectedShape),
    }
}

/// The message under `key`, which may be absent.
pub open spec fn message_in(entries: Vec<(String, Document)>, key: Seq<char>) -> Result<
    Option<SubscribeMessageView>,
    DecodeError,
>
    decreases entries, 1nat,
{
    match field(entries@, key) {
        None => Ok(None),
        Some(Document::Null) => Ok(None),
        Some(Document::Object(sub)) => {
            proof {
                lemma_field_is_part(entries, key);
            }
            match required_node_in(sub, "schema"@) {
                Ok(node) => Ok(Some(SubscribeMessageView { schema: Box::new(node) })),
                Err(e) => Err(e),
            }
        },
        Some(_) => Err(DecodeError::UnexpectedShape),
    }
}

/// The payload of a list.
pub open spec fn array_of(entries: Vec<(String, Document)>) -> Result<ArrayTypeView, DecodeError>
    decreases entries, 2nat,
{
    let items = required_node_in(entries, "items"@);
    let max_length = optional_u64_of(field(entries@, "maxLength"@));
    if items is Err {
        Err(items->Err_0)
    } else if max_length is Err {
        Err(max_length->Err_0)
    } else {
        Ok(ArrayTypeView { items: Box::new(items->Ok_0), max_length: max_length->Ok_0 })
    }
}

/// The payload of a record.
pub open spec fn record_of(entries: Vec<(String, Document)>) -> Result<RecordTypeView, DecodeError>
    decreases entries, 2nat,
{
    let key = required_text_of(field(entries@, "key"@));
    let record = required_object_in(entries, "record"@);
    if key is Err {
        Err(key->Err_0)
    } else if record is Err {
        Err(record->Err_0)
    } else {
        Ok(RecordTypeView { key: key->Ok_0, record: record->Ok_0 })
    }
}

/// The payload of a subscription.
pub open spec fn subscription_of(entries: Vec<(String, Document)>) -> Result<
    SubscriptionTypeView,
    DecodeError,
>
    decreases entries, 2nat,
{
    let parameters = optional_object_in(entries, "parameters"@);
    let message = message_in(entries, "message"@);
    let errors = errors_or_empty_of(field(entries@, "errors"@));
    if parameters is Err {
        Err(parameters->Err_0)
    } else if message is Err {
        Err(message->Err_0)
    } else if errors is Err {
        Err(errors->Err_0)
    } else {
        Ok(
            SubscriptionTypeView {
                parameters: parameters->Ok_0,
                message: message->Ok_0,
                errors: errors->Ok_0,
            },
        )
    }
}

/// The payload of a query.
pub open spec fn query_of(entries: Vec<(String, Document)>) -> Result<QueryTypeView, DecodeError>
    decreases entries, 2nat,
{
    let parameters = optional_object_in(entries, "parameters"@);
    let output = output_in(entries, "output"@);
    let errors = errors_or_empty_of(field(entries@, "errors"@));
    if parameters is Err {
        Err(parameters->Err_0)
    } else if output is Err {
        Err(output->Err_0)
    } else if errors is Err {
        Err(errors->Err_0)
    } else {
        Ok(
            QueryTypeView {
                parameters: parameters->Ok_0,
                output: output->Ok_0,
                errors: errors->Ok_0,
            },
        )
    }
}

/// The payload of a procedure.
pub open spec fn procedure_of(entries: Vec<(String, Document)>) -> Result<
    ProcedureTypeView,
    DecodeError,
>
    decreases entries, 2nat,
{
    let parameters = optional_object_in(entries, "parameters"@);
    let input = input_in(entries, "input"@);
    let output = output_in(entries, "output"@);
    let errors = errors_or_empty_of(field(entries@, "errors"@));
    if parameters is Err {
        Err(parameters->Err_0)
    } else if input is Err {
        Err(input->Err_0)
    } else if output is Err {
        Err(output->Err_0)
    } else if errors is Err {
        Err(errors->Err_0)
    } else {
        Ok(
            ProcedureTypeView {
                parameters: parameters->Ok_0,
                input: input->Ok_0,
                output: output->Ok_0,
                errors: errors->Ok_0,
            },
        )
    }
}

/// The payload of the parameters of a request.
pub open spec fn params_of(entries: Vec<(String, Document)>) -> Result<ParamsTypeView, DecodeError>
    decreases entries, 2nat,
{
    let required = texts_or_empty_of(field(entries@, "required"@));
    let properties = nodes_in(entries, "properties"@);
    if required is Err {
        Err(required->Err_0)
    } else if properties is Err {
        Err(properties->Err_0)
    } else {
        Ok(ParamsTypeView { required: required->Ok_0, properties: properties->Ok_0 })
    }
}

/// The kind and payload of a node whose `type` is `tag`.
pub open spec fn data_of(entries: Vec<(String, Document)>, tag: Seq<char>) -> Result<
    LexiconDataTypeView,
    DecodeError,
>
    decreases entries, 3nat,
{
    if tag == "string"@ {
        match string_of(entries@) {
            Ok(x) => Ok(LexiconDataTypeView::String(x)),
            Err(e) => Err(e),
        }
    } else if tag == "bytes"@ {
        match bytes_of(entries@) {
            Ok(x) => Ok(LexiconDataTypeView::Bytes(x)),
            Err(e) => Err(e),
        }
    } else if tag == "blob"@ {
        match blob_of(entries@) {
            Ok(x) => Ok(LexiconDataTypeView::Blob(x)),
            Err(e) => Err(e),
        }
    } else if tag == "array"@ {
        match array_of(entries) {
            Ok(x) => Ok(LexiconDataTypeView::Array(x)),
            Err(e) => Err(e),
        }
    } else if tag == "record"@ {
        match record_of(entries) {
            Ok(x) => Ok(LexiconDataTypeView::Record(x)),
            Err(e) => Err(e),
        }
    } else if tag == "subscription"@ {
        match subscription_of(entries) {
            Ok(x) => Ok(LexiconDataTypeView::Subscription(x)),
            Err(e) => Err(e),
        }
    } else if tag == "query"@ {
        match query_of(entries) {
            Ok(x) => Ok(LexiconDataTypeView::Query(x)),
            Err(e) => Err(e),
        }
    } else if tag == "procedure"@ {
        match procedure_of(entries) {
            Ok(x) => Ok(LexiconDataTypeView::Procedure(x)),
            Err(e) => Err(e),
        }
    } else if tag == "params"@ {
        match params_of(entries) {
            Ok(x) => Ok(LexiconDataTypeView::Params(x)),
            Err(e) => Err(e),
        }
    } else if tag == "union"@ {
        match union_of(entries@) {
            Ok(x) => Ok(LexiconDataTypeView::Union(x)),
            Err(e) => Err(e),
        }
    } else if tag == "object"@ {
        match object_of(entries) {
            Ok(x) => Ok(LexiconDataTypeView::Object(x)),
            Err(e) => Err(e),
        }
    } else if tag == "ref"@ {
        match ref_of(entries@) {
            Ok(x) => Ok(LexiconDataTypeView::Ref(x)),
            Err(e) => Err(e),
        }
    } else if tag == "unknown"@ {
        Ok(LexiconDataTypeView::Unknown)
    } else if tag == "boolean"@ {
        match boolean_of(entries@) {
            Ok(x) => Ok(LexiconDataTypeView::Boolean(x)),
            Err(e) => Err(e),
        }
    } else if tag == "null"@ {
        Ok(LexiconDataTypeView::Null)
    } else if tag == "cid-link"@ {
        Ok(LexiconDataTypeView::CidLink)
    } else if tag == "integer"@ {
        match integer_of(entries@) {
            Ok(x) => Ok(LexiconDataTypeView::Integer(x)),
            Err(e) => Err(e),
        }
    } else if tag == "token"@ {
        Ok(LexiconDataTypeView::Token)
    } else {
        Err(DecodeError::UnknownType)
    }
}

/// The lexicon document that a value stands for.
pub open spec fn file_of(v: Document) -> Result<LexiconFileView, DecodeError> {
    match v {
        Document::Object(entries) => {
            let lexicon = required_u32_of(field(entries@, "lexicon"@));
            let id = required_text_of(field(entries@, "id"@));
            let revision = optional_text_of(field(entries@, "revision"@));
            let description = optional_text_of(field(entries@, "description"@));
            let defs = nodes_in(entries, "defs"@);
            if lexicon is Err {
                Err(lexicon->Err_0)
            } else if id is Err {
                Err(id->Err_0)
            } else if revision is Err {
                Err(revision->Err_0)
            } else if description is Err {
                Err(description->Err_0)
            } else if defs is Err {
                Err(defs->Err_0)
            } else {
                Ok(
                    LexiconFileView {
                        lexicon: lexicon->Ok_0,
                        id: id->Ok_0,
                        revision: revision->Ok_0,
                        description: description->Ok_0,
                        defs: defs->Ok_0,
                    },
                )
            }
        },
        _ => Err(DecodeError::UnexpectedShape),
    }
}

fn optional_text(entries: &Vec<(String, Document)>, key: &str) -> (r: Result<
    Option<String>,
    DecodeError,
>)
    ensures
        agrees(r, optional_text_of(field(entries@, key@)), |t: Option<String>| t.deep_view()),
{
    match find(entries, key) {
        None => Ok(None),
        Some(Document::Null) => Ok(None),
        Some(Document::Text(s)) => Ok(Some(s.clone())),
        Some(_) => Err(DecodeError::UnexpectedShape),
    }
}

fn required_text(entries: &Vec<(String, Document)>, key: &str) -> (r: Result<String, DecodeError>)
    ensures
        agrees(r, required_text_of(field(entries@, key@)), |t: String| t@),
{
    match find(entries, key) {
        None => Err(DecodeError::MissingField),
        Some(Document::Text(s)) => Ok(s.clone()),
        Some(_) => Err(DecodeError::UnexpectedShape),
    }
}

fn optional_i64(entries: &Vec<(String, Document)>, key: &str) -> (r: Result<Option<i64>, DecodeError>)
    ensures
        agrees(r, optional_i64_of(field(entries@, key@)), |n: Option<i64>| n),
{
    match find(entries, key) {
        None => Ok(None),
        Some(Document::Null) => Ok(None),
        Some(Document::Number(s, u)) => match number(*s, *u) {
            Some(n) => {
                if -0x8000_0000_0000_0000i128 <= n && n <= 0x7fff_ffff_ffff_ffffi128 {
                    Ok(Some(n as i64))
                } else {
                    Err(DecodeError::UnexpectedShape)
                }
            },
            None => Err(DecodeError::UnexpectedShape),
        },
        Some(_) => Err(DecodeError::UnexpectedShape),
    }
}

fn optional_u64(entries: &Vec<(String, Document)>, key: &str) -> (r: Result<Option<u64>, DecodeError>)
    ensures
        agrees(r, optional_u64_of(field(entries@, key@)), |n: Option<u64>| n),
{
    match find(entries, key) {
        None => Ok(None),
        Some(Document::Null) => Ok(None),
        Some(Document::Number(s, u)) => match number(*s, *u) {
            Some(n) => {
                if 0i128 <= n && n <= 0xffff_ffff_ffff_ffffi128 {
                    Ok(Some(n as u64))
                } else {
                    Err(DecodeError::UnexpectedShape)
                }
            },
            None => Err(DecodeError::UnexpectedShape),
        },
        Some(_) => Err(DecodeError::UnexpectedShape),
    }
}

fn required_u32(entries: &Vec<(String, Document)>, key: &str) -> (r: Result<u32, DecodeError>)
    ensures
        agrees(r, required_u32_of(field(entries@, key@)), |n: u32| n),
{
    match find(entries, key) {
        None => Err(DecodeError::MissingField),
        Some(Document::Number(s, u)) => match number(*s, *u) {
            Some(n) => {
                if 0i128 <= n && n <= 0xffff_ffffi128 {
                    Ok(n as u32)
                } else {
                    Err(DecodeError::UnexpectedShape)
                }
            },
            None => Err(DecodeError::UnexpectedShape),
        },
        Some(_) => Err(DecodeError::UnexpectedShape),
    }
}

fn optional_bool(entries: &Vec<(String, Document)>, key: &str) -> (r: Result<
    Option<bool>,
    DecodeError,
>)
    ensures
        agrees(r, optional_bool_of(field(entries@, key@)), |b: Option<bool>| b),
{
    match find(entries, key) {
        None => Ok(None),
        Some(Document::Null) => Ok(None),
        Some(Document::Bool(b)) => Ok(Some(*b)),
        Some(_) => Err(DecodeError::UnexpectedShape),
    }
}

fn texts(items: &Vec<Document>) -> (r: Result<Vec<String>, DecodeError>)
    ensures
        agrees(r, texts_of(items@), |v: Vec<String>| v.deep_view()),
{
    let mut out: Vec<String> = Vec::new();
    let mut i: usize = 0;
    while i < items.len()
        invariant
            0 <= i <= items.len(),
            out@.len() == i,
            forall|j: int|
                0 <= j < i ==> (#[trigger] items@[j]) is Text && out@[j]@ == items@[j]->Text_0@,
        decreases items.len() - i,
    {
        match &items[i] {
            Document::Text(s) => {
                out.push(s.clone());
            },
            _ => {
                assert(!(items@[i as int] is Text));
                return Err(DecodeError::UnexpectedShape);
            },
        }
        i += 1;
    }
    assert(out.deep_view() =~= Seq::new(items@.len(), |j: int| items@[j]->Text_0@));
    Ok(out)
}

fn optional_texts(entries: &Vec<(String, Document)>, key: &str) -> (r: Result<
    Option<Vec<String>>,
    DecodeError,
>)
    ensures
        agrees(
            r,
            optional_texts_of(field(entries@, key@)),
            |t: Option<Vec<String>>| t.deep_view(),
        ),
{
    match find(entries, key) {
        None => Ok(None),
        Some(Document::Null) => Ok(None),
        Some(Document::List(items)) => match texts(items) {
            Ok(list) => Ok(Some(list)),
            Err(e) => Err(e),
        },
        Some(_) => Err(DecodeError::UnexpectedShape),
    }
}

fn texts_or_empty(entries: &Vec<(String, Document)>, key: &str) -> (r: Result<
    Vec<String>,
    DecodeError,
>)
    ensures
        agrees(r, texts_or_empty_of(field(entries@, key@)), |t: Vec<String>| t.deep_view()),
{
    match find(entries, key) {
        None => {
            let list: Vec<String> = Vec::new();
            assert(list.deep_view() =~= Seq::<Seq<char>>::empty());
            Ok(list)
        },
        Some(Document::List(items)) => texts(items),
        Some(_) => Err(DecodeError::UnexpectedShape),
    }
}

fn required_texts(entries: &Vec<(String, Document)>, key: &str) -> (r: Result<
    Vec<String>,
    DecodeError,
>)
    ensures
        agrees(r, required_texts_of(field(entries@, key@)), |t: Vec<String>| t.deep_view()),
{
    match find(entries, key) {
        None => Err(DecodeError::MissingField),
        Some(Document::List(items)) => texts(items),
        Some(_) => Err(DecodeError::UnexpectedShape),
    }
}

fn i64s(items: &Vec<Document>) -> (r: Result<Vec<i64>, DecodeError>)
    ensures
        agrees(r, i64s_of(items@), |v: Vec<i64>| v.deep_view()),
{
    let mut out: Vec<i64> = Vec::new();
    let mut i: usize = 0;
    while i < items.len()
        invariant
            0 <= i <= items.len(),
            out@.len() == i,
            forall|j: int|
                0 <= j < i ==> is_i64(#[trigger] items@[j]) && out@[j] == i64_of(items@[j]),
        decreases items.len() - i,
    {
        match &items[i] {
            Document::Number(s, u) => match number(*s, *u) {
                Some(n) => {
                    if -0x8000_0000_0000_0000i128 <= n && n <= 0x7fff_ffff_ffff_ffffi128 {
                        out.push(n as i64);
                    } else {
                        assert(!is_i64(items@[i as int]));
                        return Err(DecodeError::UnexpectedShape);
                    }
                },
                None => {
                    assert(!is_i64(items@[i as int]));
                    return Err(DecodeError::UnexpectedShape);
                },
            },
            _ => {
                assert(!is_i64(items@[i as int]));
                return Err(DecodeError::UnexpectedShape);
            },
        }
        i += 1;
    }
    assert(out.deep_view() =~= Seq::new(items@.len(), |j: int| i64_of(items@[j])));
    Ok(out)
}

fn optional_i64s(entries: &Vec<(String, Document)>, key: &str) -> (r: Result<
    Option<Vec<i64>>,
    DecodeError,
>)
    ensures
        agrees(r, optional_i64s_of(field(entries@, key@)), |t: Option<Vec<i64>>| t.deep_view()),
{
    match find(entries, key) {
        None => Ok(None),
        Some(Document::Null) => Ok(None),
        Some(Document::List(items)) => match i64s(items) {
            Ok(list) => Ok(Some(list)),
            Err(e) => Err(e),
        },
        Some(_) => Err(DecodeError::UnexpectedShape),
    }
}

fn decode_error(v: &Document) -> (r: Result<SomeError, DecodeError>)
    ensures
        agrees(r, error_of(*v), |e: SomeError| e@),
{
    match v {
        Document::Object(entries) => {
            let name = match required_text(entries, "name") {
                Ok(x) => x,
                Err(e) => return Err(e),
            };
            let description = match optional_text(entries, "description") {
                Ok(x) => x,
                Err(e) => return Err(e),
            };
            Ok(SomeError { name, description })
        },
        _ => Err(DecodeError::UnexpectedShape),
    }
}

fn errors(items: &Vec<Document>) -> (r: Result<Vec<SomeError>, DecodeError>)
    ensures
        agrees(r, errors_prefix(items@, items@.len()), |v: Vec<SomeError>| errors_view(v@)),
{
    let mut out: Vec<SomeError> = Vec::new();
    let mut i: usize = 0;
    assert(errors_view(out@) =~= Seq::<SomeErrorView>::empty());
    while i < items.len()
        invariant
            0 <= i <= items.len(),
            errors_prefix(items@, i as nat) == Ok::<Seq<SomeErrorView>, DecodeError>(
                errors_view(out@),
            ),
        decreases items.len() - i,
    {
        let ghost before = out@;
        match decode_error(&items[i]) {
            Ok(x) => {
                out.push(x);
                assert(errors_view(out@) =~= errors_view(before).push(x@));
            },
            Err(e) => {
                assert(errors_prefix(items@, (i + 1) as nat) == Err::<
                    Seq<SomeErrorView>,
                    DecodeError,
                >(e));
                proof {
                    lemma_errors_prefix_fails(items@, (i + 1) as nat, items@.len());
                }
                return Err(e);
            },
        }
        i += 1;
    }
    Ok(out)
}

fn errors_or_empty(entries: &Vec<(String, Document)>, key: &str) -> (r: Result<
    Vec<SomeError>,
    DecodeError,
>)
    ensures
        agrees(r, errors_or_empty_of(field(entries@, key@)), |v: Vec<SomeError>| errors_view(v@)),
{
    match find(entries, key) {
        None => {
            let list: Vec<SomeError> = Vec::new();
            assert(errors_view(list@) =~= Seq::<SomeErrorView>::empty());
            Ok(list)
        },
        Some(Document::List(items)) => errors(items),
        Some(_) => Err(DecodeError::UnexpectedShape),
    }
}

/// Once a prefix of a list of errors fails, every longer prefix fails alike.
proof fn lemma_errors_prefix_fails(items: Seq<Document>, n: nat, m: nat)
    requires
        errors_prefix(items, n) is Err,
        n <= m <= items.len(),
    ensures
        errors_prefix(items, m) == errors_prefix(items, n),
    decreases m,
{
    if n < m {
        lemma_errors_prefix_fails(items, n, (m - 1) as nat);
    }
}

/// Once a prefix of an object's nodes fails, every longer prefix fails alike.
proof fn lemma_nodes_prefix_fails(props: Vec<(String, Document)>, n: nat, m: nat)
    requires
        nodes_prefix(props, n) is Err,
        n <= m <= props.len(),
    ensures
        nodes_prefix(props, m) == nodes_prefix(props, n),
    decreases m,
{
    if n < m {
        lemma_nodes_prefix_fails(props, n, (m - 1) as nat);
    }
}

fn decode_string(entries: &Vec<(String, Document)>) -> (r: Result<StringType, DecodeError>)
    ensures
        agrees(r, string_of(entries@), |x: StringType| x@),
{
    let format = match optional_text(entries, "format") {
        Ok(x) => x,
        Err(e) => return Err(e),
    };
    let max_length = match optional_i64(entries, "maxLength") {
        Ok(x) => x,
        Err(e) => return Err(e),
    };
    let min_length = match optional_i64(entries, "minLength") {
        Ok(x) => x,
        Err(e) => return Err(e),
    };
    let max_graphemes = match optional_i64(entries, "maxGraphemes") {
        Ok(x) => x,
        Err(e) => return Err(e),
    };
    let min_graphemes = match optional_i64(entries, "minGraphemes") {
        Ok(x) => x,
        Err(e) => return Err(e),
    };
    let known_values = match optional_texts(entries, "knownValues") {
        Ok(x) => x,
        Err(e) => return Err(e),
    };
    let allowed_enum = match optional_texts(entries, "enum") {
        Ok(x) => x,
        Err(e) => return Err(e),
    };
    let default = match optional_text(entries, "default") {
        Ok(x) => x,
        Err(e) => return Err(e),
    };
    let constant = match optional_text(entries, "const") {
        Ok(x) => x,
        Err(e) => return Err(e),
    };
    Ok(
        StringType {
            format,
            max_length,
            min_length,
            max_graphemes,
            min_graphemes,
            known_values,
            allowed_enum,
            default,
            constant,
        },
    )
}

fn decode_bytes(entries: &Vec<(String, Document)>) -> (r: Result<BytesType, DecodeError>)
    ensures
        agrees(r, bytes_of(entries@), |x: BytesType| x),
{
    let max_length = match optional_u64(entries, "maxLength") {
        Ok(x) => x,
        Err(e) => return Err(e),
    };
    let min_length = match optional_u64(entries, "minLength") {
        Ok(x) => x,
        Err(e) => return Err(e),
    };
    Ok(BytesType { max_length, min_length })
}

fn decode_blob(entries: &Vec<(String, Document)>) -> (r: Result<BlobType, DecodeError>)
    ensures
        agrees(r, blob_of(entries@), |x: BlobType| x@),
{
    let accept = match required_texts(entries, "accept") {
        Ok(x) => x,
        Err(e) => return Err(e),
    };
    let max_size = match optional_i64(entries, "maxSize") {
        Ok(x) => x,
        Err(e) => return Err(e),
    };
    Ok(BlobType { accept, max_size })
}

fn decode_union(entries: &Vec<(String, Document)>) -> (r: Result<UnionType, DecodeError>)
    ensures
        agrees(r, union_of(entries@), |x: UnionType| x@),
{
    let refs = match required_texts(entries, "refs") {
        Ok(x) => x,
        Err(e) => return Err(e),
    };
    let closed = match optional_bool(entries, "closed") {
        Ok(x) => x,
        Err(e) => return Err(e),
    };
    Ok(UnionType { refs, closed })
}

fn decode_ref(entries: &Vec<(String, Document)>) -> (r: Result<RefType, DecodeError>)
    ensures
        agrees(r, ref_of(entries@), |x: RefType| x@),
{
    match required_text(entries, "ref") {
        Ok(reference) => Ok(RefType { reference }),
        Err(e) => Err(e),
    }
}

fn decode_boolean(entries: &Vec<(String, Document)>) -> (r: Result<BooleanType, DecodeError>)
    ensures
        agrees(r, boolean_of(entries@), |x: BooleanType| x),
{
    let default = match optional_bool(entries, "default") {
        Ok(x) => x,
        Err(e) => return Err(e),
    };
    let constant = match optional_bool(entries, "const") {
        Ok(x) => x,
        Err(e) => return Err(e),
    };
    Ok(BooleanType { default, constant })
}

fn decode_integer(entries: &Vec<(String, Document)>) -> (r: Result<IntegerType, DecodeError>)
    ensures
        agrees(r, integer_of(entries@), |x: IntegerType| x@),
{
    let minimum = match optional_i64(entries, "minimum") {
        Ok(x) => x,
        Err(e) => return Err(e),
    };
    let maximum = match optional_i64(entries, "maximum") {
        Ok(x) => x,
        Err(e) => return Err(e),
    };
    let allowed_enum = match optional_i64s(entries, "enum") {
        Ok(x) => x,
        Err(e) => return Err(e),
    };
    let default = match optional_i64(entries, "default") {
        Ok(x) => x,
        Err(e) => return Err(e),
    };
    let constant = match optional_i64(entries, "const") {
        Ok(x) => x,
        Err(e) => return Err(e),
    };
    Ok(IntegerType { minimum, maximum, allowed_enum, default, constant })
}

/// Decodes a definition node.
///
/// The node is an object with a `type`, which is a text and names one of the
/// known kinds, with the fields of that kind, and with a `description` that
/// is a text where it is there. The result is the fault that `node_of` gives,
/// or a node whose view is the one that `node_of` gives.
pub fn decode_node(v: &Document) -> (r: Result<LexiconData, DecodeError>)
    ensures
        agrees(r, node_of(*v), |n: LexiconData| n@),
    decreases v, 0nat,
{
    match v {
        Document::Object(entries) => {
            let tag = match required_text(entries, "type") {
                Ok(x) => x,
                Err(e) => return Err(e),
            };
            let data = match decode_data(entries, tag.as_str()) {
                Ok(x) => x,
                Err(e) => return Err(e),
            };
            let description = match optional_text(entries, "description") {
                Ok(x) => x,
                Err(e) => return Err(e),
            };
            Ok(LexiconData { data, description })
        },
        _ => Err(DecodeError::UnexpectedShape),
    }
}

fn decode_nodes(props: &Vec<(String, Document)>) -> (r: Result<NodeMap, DecodeError>)
    ensures
        agrees(r, nodes_prefix(*props, props@.len()), |m: NodeMap| m@),
    decreases props, 0nat,
{
    let mut map = NodeMap::new();
    let mut i: usize = 0;
    while i < props.len()
        invariant
            0 <= i <= props.len(),
            nodes_prefix(*props, i as nat) == Ok::<Seq<(Seq<char>, LexiconDataView)>, DecodeError>(
                map@,
            ),
        decreases props.len() - i,
    {
        proof {
            assert(decreases_to!(props => props[i as int]));
        }
        let node = match decode_node(&props[i].1) {
            Ok(x) => x,
            Err(e) => {
                proof {
                    lemma_nodes_prefix_fails(*props, (i + 1) as nat, props@.len());
                }
                return Err(e);
            },
        };
        map.insert(props[i].0.clone(), node);
        i += 1;
    }
    Ok(map)
}

fn decode_nodes_in(entries: &Vec<(String, Document)>, key: &str) -> (r: Result<NodeMap, DecodeError>)
    ensures
        agrees(r, nodes_in(*entries, key@), |m: NodeMap| m@),
    decreases entries, 1nat,
{
    proof {
        lemma_field_is_part(*entries, key@);
    }
    match find(entries, key) {
        None => Err(DecodeError::MissingField),
        Some(Document::Object(props)) => decode_nodes(props),
        Some(_) => Err(DecodeError::UnexpectedShape),
    }
}

fn decode_required_node(entries: &Vec<(String, Document)>, key: &str) -> (r: Result<
    LexiconData,
    DecodeError,
>)
    ensures
        agrees(r, required_node_in(*entries, key@), |n: LexiconData| n@),
    decreases entries, 1nat,
{
    proof {
        lemma_field_is_part(*entries, key@);
    }
    match find(entries, key) {
        None => Err(DecodeError::MissingField),
        Some(item) => decode_node(item),
    }
}

fn decode_optional_node(entries: &Vec<(String, Document)>, key: &str) -> (r: Result<
    Option<Box<LexiconData>>,
    DecodeError,
>)
    ensures
        agrees(
            r,
            optional_node_in(*entries, key@),
            |s: Option<Box<LexiconData>>| schema_view(s),
        ),
    decreases entries, 1nat,
{
    proof {
        lemma_field_is_part(*entries, key@);
    }
    match find(entries, key) {
        None => Ok(None),
        Some(Document::Null) => Ok(None),
        Some(item) => match decode_node(item) {
            Ok(node) => Ok(Some(Box::new(node))),
            Err(e) => Err(e),
        },
    }
}

fn decode_object(entries: &Vec<(String, Document)>) -> (r: Result<ObjectType, DecodeError>)
    ensures
        agrees(r, object_of(*entries), |x: ObjectType| x@),
    decreases entries, 2nat,
{
    let required = match texts_or_empty(entries, "required") {
        Ok(x) => x,
        Err(e) => return Err(e),
    };
    let nullable = match texts_or_empty(entries, "nullable") {
        Ok(x) => x,
        Err(e) => return Err(e),
    };
    let properties = match decode_nodes_in(entries, "properties") {
        Ok(x) => x,
        Err(e) => return Err(e),
    };
    Ok(ObjectType { required, nullable, properties })
}

fn decode_required_object(entries: &Vec<(String, Document)>, key: &str) -> (r: Result<
    ObjectType,
    DecodeError,
>)
    ensures
        agrees(r, required_object_in(*entries, key@), |x: ObjectType| x@),
    decreases entries, 1nat,
{
    proof {
        lemma_field_is_part(*entries, key@);
    }
    match find(entries, key) {
        None => Err(DecodeError::MissingField),
        Some(Document::Object(sub)) => decode_object(sub),
        Some(_) => Err(DecodeError::UnexpectedShape),
    }
}

fn decode_optional_object(entries: &Vec<(String, Document)>, key: &str) -> (r: Result<
    Option<ObjectType>,
    DecodeError,
>)
    ensures
        agrees(
            r,
            optional_object_in(*entries, key@),
            |o: Option<ObjectType>| optional_object_view(o),
        ),
    decreases entries, 1nat,
{
    proof {
        lemma_field_is_part(*entries, key@);
    }
    match find(entries, key) {
        None => Ok(None),
        Some(Document::Null) => Ok(None),
        Some(Document::Object(sub)) => match decode_object(sub) {
            Ok(o) => Ok(Some(o)),
            Err(e) => Err(e),
        },
        Some(_) => Err(DecodeError::UnexpectedShape),
    }
}

fn decode_output(entries: &Vec<(String, Document)>) -> (r: Result<OutputType, DecodeError>)
    ensures
        agrees(r, output_of(*entries), |x: OutputType| x@),
    decreases entries, 2nat,
{
    let description = match optional_text(entries, "description") {
        Ok(x) => x,
        Err(e) => return Err(e),
    };
    let encoding = match required_text(entries, "encoding") {
        Ok(x) => x,
        Err(e) => return Err(e),
    };
    let schema = match decode_optional_node(entries, "schema") {
        Ok(x) => x,
        Err(e) => return Err(e),
    };
    Ok(OutputType { description, encoding, schema })
}

fn decode_output_in(entries: &Vec<(String, Document)>, key: &str) -> (r: Result<
    Option<OutputType>,
    DecodeError,
>)
    ensures
        agrees(r, output_in(*entries, key@), |o: Option<OutputType>| output_view(o)),
    decreases entries, 1nat,
{
    proof {
        lemma_field_is_part(*entries, key@);
    }
    match find(entries, key) {
        None => Ok(None),
        Some(Document::Null) => Ok(None),
        Some(Document::Object(sub)) => match decode_output(sub) {
            Ok(o) => Ok(Some(o)),
            Err(e) => Err(e),
        },
        Some(_) => Err(DecodeError::UnexpectedShape),
    }
}

fn decode_input(entries: &Vec<(String, Document)>) -> (r: Result<InputType, DecodeError>)
    ensures
        agrees(r, input_of(*entries), |x: InputType| x@),
    decreases entries, 2nat,
{
    let encoding = match required_text(entries, "encoding") {
        Ok(x) => x,
        Err(e) => return Err(e),
    };
    let schema = match decode_optional_node(entries, "schema") {
        Ok(x) => x,
        Err(e) => return Err(e),
    };
    Ok(InputType { encoding, schema })
}

fn decode_input_in(entries: &Vec<(String, Document)>, key: &str) -> (r: Result<
    Option<InputType>,
    DecodeError,
>)
    ensures
        agrees(r, input_in(*entries, key@), |i: Option<InputType>| input_view(i)),
    decreases entries, 1nat,
{
    proof {
        lemma_field_is_part(*entries, key@);
    }
    match find(entries, key) {
        None => Ok(None),
        Some(Document::Null) => Ok(None),
        Some(Document::Object(sub)) => match decode_input(sub) {
            Ok(i) => Ok(Some(i)),
            Err(e) => Err(e),
        },
        Some(_) => Err(DecodeError::UnexpectedShape),
    }
}

fn decode_message_in(entries: &Vec<(String, Document)>, key: &str) -> (r: Result<
    Option<SubscribeMessage>,
    DecodeError,
>)
    ensures
        agrees(r, message_in(*entries, key@), |m: Option<SubscribeMessage>| message_view(m)),
    decreases entries, 1nat,
{
    proof {
        lemma_field_is_part(*entries, key@);
    }
    match find(entries, key) {
        None => Ok(None),
        Some(Document::Null) => Ok(None),
        Some(Document::Object(sub)) => match decode_required_node(sub, "schema") {
            Ok(node) => Ok(Some(SubscribeMessage { schema: Box::new(node) })),
            Err(e) => Err(e),
        },
        Some(_) => Err(DecodeError::UnexpectedShape),
    }
}

fn decode_array(entries: &Vec<(String, Document)>) -> (r: Result<ArrayType, DecodeError>)
    ensures
        agrees(r, array_of(*entries), |x: ArrayType| x@),
    decreases entries, 2nat,
{
    let items = match decode_required_node(entries, "items") {
        Ok(x) => x,
        Err(e) => return Err(e),
    };
    let max_length = match optional_u64(entries, "maxLength") {
        Ok(x) => x,
        Err(e) => return Err(e),
    };
    Ok(ArrayType { items: Box::new(items), max_length })
}

fn decode_record(entries: &Vec<(String, Document)>) -> (r: Result<RecordType, DecodeError>)
    ensures
        agrees(r, record_of(*entries), |x: RecordType| x@),
    decreases entries, 2nat,
{
    let key = match required_text(entries, "key") {
        Ok(x) => x,
        Err(e) => return Err(e),
    };
    let record = match decode_required_object(entries, "record") {
        Ok(x) => x,
        Err(e) => return Err(e),
    };
    Ok(RecordType { key, record })
}

fn decode_subscription(entries: &Vec<(String, Document)>) -> (r: Result<
    SubscriptionType,
    DecodeError,
>)
    ensures
        agrees(r, subscription_of(*entries), |x: SubscriptionType| x@),
    decreases entries, 2nat,
{
    let parameters = match decode_optional_object(entries, "parameters") {
        Ok(x) => x,
        Err(e) => return Err(e),
    };
    let message = match decode_message_in(entries, "message") {
        Ok(x) => x,
        Err(e) => return Err(e),
    };
    let errors = match errors_or_empty(entries, "errors") {
        Ok(x) => x,
        Err(e) => return Err(e),
    };
    Ok(SubscriptionType { parameters, message, errors })
}

fn decode_query(entries: &Vec<(String, Document)>) -> (r: Result<QueryType, DecodeError>)
    ensures
        agrees(r, query_of(*entries), |x: QueryType| x@),
    decreases entries, 2nat,
{
    let parameters = match decode_optional_object(entries, "parameters") {
        Ok(x) => x,
        Err(e) => return Err(e),
    };
    let output = match decode_output_in(entries, "output") {
        Ok(x) => x,
        Err(e) => return Err(e),
    };
    let errors = match errors_or_empty(entries, "errors") {
        Ok(x) => x,
        Err(e) => return Err(e),
    };
    Ok(QueryType { parameters, output, errors })
}

fn decode_procedure(entries: &Vec<(String, Document)>) -> (r: Result<ProcedureType, DecodeError>)
    ensures
        agrees(r, procedure_of(*entries), |x: ProcedureType| x@),
    decreases entries, 2nat,
{
    let parameters = match decode_optional_object(entries, "parameters") {
        Ok(x) => x,
        Err(e) => return Err(e),
    };
    let input = match decode_input_in(entries, "input") {
        Ok(x) => x,
        Err(e) => return Err(e),
    };
    let output = match decode_output_in(entries, "output") {
        Ok(x) => x,
        Err(e) => return Err(e),
    };
    let errors = match errors_or_empty(entries, "errors") {
        Ok(x) => x,
        Err(e) => return Err(e),
    };
    Ok(ProcedureType { parameters, input, output, errors })
}

fn decode_params(entries: &Vec<(String, Document)>) -> (r: Result<ParamsType, DecodeError>)
    ensures
        agrees(r, params_of(*entries), |x: ParamsType| x@),
    decreases entries, 2nat,
{
    let required = match texts_or_empty(entries, "required") {
        Ok(x) => x,
        Err(e) => return Err(e),
    };
    let properties = match decode_nodes_in(entries, "properties") {
        Ok(x) => x,
        Err(e) => return Err(e),
    };
    Ok(ParamsType { required, properties })
}

fn decode_data(entries: &Vec<(String, Document)>, tag: &str) -> (r: Result<
    LexiconDataType,
    DecodeError,
>)
    ensures
        agrees(r, data_of(*entries, tag@), |x: LexiconDataType| x@),
    decreases entries, 3nat,
{
    if same_text(tag, "string") {
        match decode_string(entries) {
            Ok(x) => Ok(LexiconDataType::String(x)),
            Err(e) => Err(e),
        }
    } else if same_text(tag, "bytes") {
        match decode_bytes(entries) {
            Ok(x) => Ok(LexiconDataType::Bytes(x)),
            Err(e) => Err(e),
        }
    } else if same_text(tag, "blob") {
        match decode_blob(entries) {
            Ok(x) => Ok(LexiconDataType::Blob(x)),
            Err(e) => Err(e),
        }
    } else if same_text(tag, "array") {
        match decode_array(entries) {
            Ok(x) => Ok(LexiconDataType::Array(x)),
            Err(e) => Err(e),
        }
    } else if same_text(tag, "record") {
        match decode_record(entries) {
            Ok(x) => Ok(LexiconDataType::Record(x)),
            Err(e) => Err(e),
        }
    } else if same_text(tag, "subscription") {
        match decode_subscription(entries) {
            Ok(x) => Ok(LexiconDataType::Subscription(x)),
            Err(e) => Err(e),
        }
    } else if same_text(tag, "query") {
        match decode_query(entries) {
            Ok(x) => Ok(LexiconDataType::Query(x)),
            Err(e) => Err(e),
        }
    } else if same_text(tag, "procedure") {
        match decode_procedure(entries) {
            Ok(x) => Ok(LexiconDataType::Procedure(x)),
            Err(e) => Err(e),
        }
    } else if same_text(tag, "params") {
        match decode_params(entries) {
            Ok(x) => Ok(LexiconDataType::Params(x)),
            Err(e) => Err(e),
        }
    } else if same_text(tag, "union") {
        match decode_union(entries) {
            Ok(x) => Ok(LexiconDataType::Union(x)),
            Err(e) => Err(e),
        }
    } else if same_text(tag, "object") {
        match decode_object(entries) {
            Ok(x) => Ok(LexiconDataType::Object(x)),
            Err(e) => Err(e),
        }
    } else if same_text(tag, "ref") {
        match decode_ref(entries) {
            Ok(x) => Ok(LexiconDataType::Ref(x)),
            Err(e) => Err(e),
        }
    } else if same_text(tag, "unknown") {
        Ok(LexiconDataType::Unknown)
    } else if same_text(tag, "boolean") {
        match decode_boolean(entries) {
            Ok(x) => Ok(LexiconDataType::Boolean(x)),
            Err(e) => Err(e),
        }
    } else if same_text(tag, "null") {
        Ok(LexiconDataType::Null)
    } else if same_text(tag, "cid-link") {
        Ok(LexiconDataType::CidLink)
    } else if same_text(tag, "integer") {
        match decode_integer(entries) {
            Ok(x) => Ok(LexiconDataType::Integer(x)),
            Err(e) => Err(e),
        }
    } else if same_text(tag, "token") {
        Ok(LexiconDataType::Token)
    } else {
        Err(DecodeError::UnknownType)
    }
}

/// Decodes a lexicon document.
///
/// The document is an object with a `lexicon`, which is a small unsigned
/// integer, an `id`, which is a text, and `defs`, an object of definition
/// nodes; its `revision` and `description` are texts where they are there.
/// The definitions keep the order of `defs`. The result is the fault that
/// `file_of` gives, or a document whose view is the one that `file_of`
/// gives.
pub fn decode_file(v: &Document) -> (r: Result<LexiconFile, DecodeError>)
    ensures
        agrees(r, file_of(*v), |f: LexiconFile| f@),
{
    match v {
        Document::Object(entries) => {
            let lexicon = match required_u32(entries, "lexicon") {
                Ok(x) => x,
                Err(e) => return Err(e),
            };
            let id = match required_text(entries, "id") {
                Ok(x) => x,
                Err(e) => return Err(e),
            };
            let revision = match optional_text(entries, "revision") {
                Ok(x) => x,
                Err(e) => return Err(e),
            };
            let description = match optional_text(entries, "description") {
                Ok(x) => x,
                Err(e) => return Err(e),
            };
            let defs = match decode_nodes_in(entries, "defs") {
                Ok(x) => x,
                Err(e) => return Err(e),
            };
            Ok(LexiconFile { lexicon, id, revision, description, defs })
        },
        _ => Err(DecodeError::UnexpectedShape),
    }
}

} // verus!
