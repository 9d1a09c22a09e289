//! The schema type model: a lexicon document and the definition nodes it is
//! made of.
//!
//! Every type has a view, which is what the contracts of this library speak
//! of: text as a sequence of characters, a list as a sequence, a mapping as
//! the sequence of its entries in their order.

use vstd::prelude::*;
use crate::node_map::NodeMap;

verus! {

/// Constraints on a byte string.
#[derive(Debug)]
pub struct BytesType {
    pub max_length: Option<u64>,
    pub min_length: Option<u64>,
}

/// A list: the node that every item follows, and a bound on the length.
#[derive(Debug)]
pub struct ArrayType {
    pub items: Box<LexiconData>,
    pub max_length: Option<u64>,
}

/// A record: the kind of key under which it is stored, and its shape.
#[derive(Debug)]
pub struct RecordType {
    pub key: String,
    pub record: ObjectType,
}

/// A named error that a query, procedure or subscription can answer with.
#[derive(Debug)]
pub struct SomeError {
    pub name: String,
    pub description: Option<String>,
}

/// The message that a subscription delivers.
#[derive(Debug)]
pub struct SubscribeMessage {
    pub schema: Box<LexiconData>,
}

/// A subscription to a stream of messages.
#[derive(Debug)]
pub struct SubscriptionType {
    pub parameters: Option<ObjectType>,
    pub message: Option<SubscribeMessage>,
    pub errors: Vec<SomeError>,
}

/// What a query or a procedure returns.
#[derive(Debug)]
pub struct OutputType {
    pub description: Option<String>,
    pub encoding: String,
    pub schema: Option<Box<LexiconData>>,
}

/// What a procedure takes.
#[derive(Debug)]
pub struct InputType {
    pub encoding: String,
    pub schema: Option<Box<LexiconData>>,
}

/// A query.
#[derive(Debug)]
pub struct QueryType {
    pub parameters: Option<ObjectType>,
    pub output: Option<OutputType>,
    pub errors: Vec<SomeError>,
}

/// A procedure.
#[derive(Debug)]
pub struct ProcedureType {
    pub parameters: Option<ObjectType>,
    pub input: Option<InputType>,
    pub output: Option<OutputType>,
    pub errors: Vec<SomeError>,
}

/// The parameters of a request: named nodes in their order, and the names
/// of those that must be given.
#[derive(Debug)]
pub struct ParamsType {
    pub required: Vec<String>,
    pub properties: NodeMap,
}

/// A union of referenced definitions, in their order.
#[derive(Debug)]
pub struct UnionType {
    pub refs: Vec<String>,
    pub closed: Option<bool>,
}

/// An object: its properties in their order, the names of those that must be
/// present, and the names of those that may be null.
#[derive(Debug)]
pub struct ObjectType {
    pub required: Vec<String>,
    pub nullable: Vec<String>,
    pub properties: NodeMap,
}

/// Constraints on a string.
#[derive(Debug)]
pub struct StringType {
    pub format: Option<String>,
    pub max_length: Option<i64>,
    pub min_length: Option<i64>,
    pub max_graphemes: Option<i64>,
    pub min_graphemes: Option<i64>,
    pub known_values: Option<Vec<String>>,
    pub allowed_enum: Option<Vec<String>>,
    pub default: Option<String>,
    pub constant: Option<String>,
}

/// Constraints on a boolean.
#[derive(Debug)]
pub struct BooleanType {
    pub default: Option<bool>,
    pub constant: Option<bool>,
}

/// Constraints on an integer.
#[derive(Debug)]
pub struct IntegerType {
    pub minimum: Option<i64>,
    pub maximum: Option<i64>,
    pub allowed_enum: Option<Vec<i64>>,
    pub default: Option<i64>,
    pub constant: Option<i64>,
}

/// A reference to another definition.
#[derive(Debug)]
pub struct RefType {
    pub reference: String,
}

/// Constraints on a blob.
#[derive(Debug)]
pub struct BlobType {
    pub accept: Vec<String>,
    pub max_size: Option<i64>,
}

/// What a definition node is, with the payload of its kind.
#[derive(Debug)]
pub enum LexiconDataType {
    String(StringType),
    Bytes(BytesType),
    Blob(BlobType),
    Array(ArrayType),
    Record(RecordType),
    Subscription(SubscriptionType),
    Query(QueryType),
    Procedure(ProcedureType),
    Params(ParamsType),
    Union(UnionType),
    Object(ObjectType),
    Ref(RefType),
    Unknown,
    Boolean(BooleanType),
    Null,
    CidLink,
    Integer(IntegerType),
    Token,
}

/// A definition node: its kind and payload, and what the schema says about
/// it in words.
#[derive(Debug)]
pub struct LexiconData {
    pub data: LexiconDataType,
    pub description: Option<String>,
}

/// A lexicon document: its named definitions in their order.
#[derive(Debug)]
pub struct LexiconFile {
    pub lexicon: u32,
    pub id: String,
    pub revision: Option<String>,
    pub description: Option<String>,
    pub defs: NodeMap,
}

/// The view of a `StringType`.
pub struct StringTypeView {
    pub format: Option<Seq<char>>,
    pub max_length: Option<i64>,
    pub min_length: Option<i64>,
    pub max_graphemes: Option<i64>,
    pub min_graphemes: Option<i64>,
    pub known_values: Option<Seq<Seq<char>>>,
    pub allowed_enum: Option<Seq<Seq<char>>>,
    pub default: Option<Seq<char>>,
    pub constant: Option<Seq<char>>,
}

/// The view of an `IntegerType`.
pub struct IntegerTypeView {
    pub minimum: Option<i64>,
    pub maximum: Option<i64>,
    pub allowed_enum: Option<Seq<i64>>,
    pub default: Option<i64>,
    pub constant: Option<i64>,
}

/// The view of a `BlobType`.
pub struct BlobTypeView {
    pub accept: Seq<Seq<char>>,
    pub max_size: Option<i64>,
}

/// The view of an `ArrayType`.
pub struct ArrayTypeView {
    pub items: Box<LexiconDataView>,
    pub max_length: Option<u64>,
}

/// The view of a `RecordType`.
pub struct RecordTypeView {
    pub key: Seq<char>,
    pub record: ObjectTypeView,
}

/// The view of a `SomeError`.
pub struct SomeErrorView {
    pub name: Seq<char>,
    pub description: Option<Seq<char>>,
}

/// The view of a `SubscribeMessage`.
pub struct SubscribeMessageView {
    pub schema: Box<LexiconDataView>,
}

/// The view of a `SubscriptionType`.
pub struct SubscriptionTypeView {
    pub parameters: Option<ObjectTypeView>,
    pub message: Option<SubscribeMessageView>,
    pub errors: Seq<SomeErrorView>,
}

/// The view of an `OutputType`.
pub struct OutputTypeView {
    pub description: Option<Seq<char>>,
    pub encoding: Seq<char>,
    pub schema: Option<Box<LexiconDataView>>,
}

/// The view of an `InputType`.
pub struct InputTypeView {
    pub encoding: Seq<char>,
    pub schema: Option<Box<LexiconDataView>>,
}

/// The view of a `QueryType`.
pub struct QueryTypeView {
    pub parameters: Option<ObjectTypeView>,
    pub output: Option<OutputTypeView>,
    pub errors: Seq<SomeErrorView>,
}

/// The view of a `ProcedureType`.
pub struct ProcedureTypeView {
    pub parameters: Option<ObjectTypeView>,
    pub input: Option<InputTypeView>,
    pub output: Option<OutputTypeView>,
    pub errors: Seq<SomeErrorView>,
}

/// The view of a `ParamsType`.
pub struct ParamsTypeView {
    pub required: Seq<Seq<char>>,
    pub properties: Seq<(Seq<char>, LexiconDataView)>,
}

/// The view of a `UnionType`.
pub struct UnionTypeView {
    pub refs: Seq<Seq<char>>,
    pub closed: Option<bool>,
}

/// The view of an `ObjectType`.
pub struct ObjectTypeView {
    pub required: Seq<Seq<char>>,
    pub nullable: Seq<Seq<char>>,
    pub properties: Seq<(Seq<char>, LexiconDataView)>,
}

/// The view of a `RefType`.
pub struct RefTypeView {
    pub reference: Seq<char>,
}

/// The view of a `LexiconDataType`.
pub enum LexiconDataTypeView {
    String(StringTypeView),
    Bytes(BytesType),
    Blob(BlobTypeView),
    Array(ArrayTypeView),
    Record(RecordTypeView),
    Subscription(SubscriptionTypeView),
    Query(QueryTypeView),
    Procedure(ProcedureTypeView),
    Params(ParamsTypeView),
    Union(UnionTypeView),
    Object(ObjectTypeView),
    Ref(RefTypeView),
    Unknown,
    Boolean(BooleanType),
    Null,
    CidLink,
    Integer(IntegerTypeView),
    Token,
}

/// The view of a `LexiconData`.
pub struct LexiconDataView {
    pub data: LexiconDataTypeView,
    pub description: Option<Seq<char>>,
}

/// The view of a `LexiconFile`.
pub struct LexiconFileView {
    pub lexicon: u32,
    pub id: Seq<char>,
    pub revision: Option<Seq<char>>,
    pub description: Option<Seq<char>>,
    pub defs: Seq<(Seq<char>, LexiconDataView)>,
}

/// The views of a list of errors.
pub open spec fn errors_view(errors: Seq<SomeError>) -> Seq<SomeErrorView> {
    Seq::new(errors.len(), |i: int| errors[i]@)
}

/// The view of an object that may be absent.
pub open spec fn optional_object_view(obj: Option<ObjectType>) -> Option<ObjectTypeView> {
    match obj {
        Some(o) => Some(o@),
        None => None,
    }
}

/// The view of a node.
pub open spec fn node_view(node: LexiconData) -> LexiconDataView
    decreases node,
{
    LexiconDataView { data: data_view(node.data), description: node.description.deep_view() }
}

/// The view of a node that may be absent.
pub open spec fn schema_view(schema: Option<Box<LexiconData>>) -> Option<Box<LexiconDataView>>
    decreases schema,
{
    match schema {
        Some(b) => Some(Box::new(node_view(*b))),
        None => None,
    }
}

/// The view of the output of a request, which may be absent.
pub open spec fn output_view(output: Option<OutputType>) -> Option<OutputTypeView>
    decreases output,
{
    match output {
        Some(o) => Some(
            OutputTypeView {
                description: o.description.deep_view(),
                encoding: o.encoding@,
                schema: schema_view(o.schema),
            },
        ),
        None => None,
    }
}

/// The view of the input of a procedure, which may be absent.
pub open spec fn input_view(input: Option<InputType>) -> Option<InputTypeView>
    decreases input,
{
    match input {
        Some(i) => Some(InputTypeView { encoding: i.encoding@, schema: schema_view(i.schema) }),
        None => None,
    }
}

/// The view of the message of a subscription, which may be absent.
pub open spec fn message_view(message: Option<SubscribeMessage>) -> Option<SubscribeMessageView>
    decreases message,
{
    match message {
        Some(m) => Some(SubscribeMessageView { schema: Box::new(node_view(*m.schema)) }),
        None => None,
    }
}

/// The view of a node's kind and payload.
pub open spec fn data_view(data: LexiconDataType) -> LexiconDataTypeView
    decreases data,
{
    match data {
        LexiconDataType::String(s) => LexiconDataTypeView::String(s@),
        LexiconDataType::Bytes(b) => LexiconDataTypeView::Bytes(b),
        LexiconDataType::Blob(b) => LexiconDataTypeView::Blob(b@),
        LexiconDataType::Array(a) => LexiconDataTypeView::Array(
            ArrayTypeView { items: Box::new(node_view(*a.items)), max_length: a.max_length },
        ),
        LexiconDataType::Record(r) => LexiconDataTypeView::Record(r@),
        LexiconDataType::Subscription(s) => LexiconDataTypeView::Subscription(
            SubscriptionTypeView {
                parameters: optional_object_view(s.parameters),
                message: message_view(s.message),
                errors: errors_view(s.errors@),
            },
        ),
        LexiconDataType::Query(q) => LexiconDataTypeView::Query(
            QueryTypeView {
                parameters: optional_object_view(q.parameters),
                output: output_view(q.output),
                errors: errors_view(q.errors@),
            },
        ),
        LexiconDataType::Procedure(p) => LexiconDataTypeView::Procedure(
            ProcedureTypeView {
                parameters: optional_object_view(p.parameters),
                input: input_view(p.input),
                output: output_view(p.output),
                errors: errors_view(p.errors@),
            },
        ),
        LexiconDataType::Params(p) => LexiconDataTypeView::Params(p@),
        LexiconDataType::Union(u) => LexiconDataTypeView::Union(u@),
        LexiconDataType::Object(o) => LexiconDataTypeView::Object(o@),
        LexiconDataType::Ref(r) => LexiconDataTypeView::Ref(r@),
        LexiconDataType::Unknown => LexiconDataTypeView::Unknown,
        LexiconDataType::Boolean(b) => LexiconDataTypeView::Boolean(b),
        LexiconDataType::Null => LexiconDataTypeView::Null,
        LexiconDataType::CidLink => LexiconDataTypeView::CidLink,
        LexiconDataType::Integer(i) => LexiconDataTypeView::Integer(i@),
        LexiconDataType::Token => LexiconDataTypeView::Token,
    }
}

impl View for StringType {
    type V = StringTypeView;

    open spec fn view(&self) -> StringTypeView {
        StringTypeView {
            format: self.format.deep_view(),
            max_length: self.max_length,
            min_length: self.min_length,
            max_graphemes: self.max_graphemes,
            min_graphemes: self.min_graphemes,
            known_values: self.known_values.deep_view(),
            allowed_enum: self.allowed_enum.deep_view(),
            default: self.default.deep_view(),
            constant: self.constant.deep_view(),
        }
    }
}

impl View for IntegerType {
    type V = IntegerTypeView;

    open spec fn view(&self) -> IntegerTypeView {
        IntegerTypeView {
            minimum: self.minimum,
            maximum: self.maximum,
            allowed_enum: self.allowed_enum.deep_view(),
            default: self.default,
            constant: self.constant,
        }
    }
}

impl View for BlobType {
    type V = BlobTypeView;

    open spec fn view(&self) -> BlobTypeView {
        BlobTypeView { accept: self.accept.deep_view(), max_size: self.max_size }
    }
}

impl View for ArrayType {
    type V = ArrayTypeView;

    open spec fn view(&self) -> ArrayTypeView {
        ArrayTypeView { items: Box::new(node_view(*self.items)), max_length: self.max_length }
    }
}

impl View for RecordType {
    type V = RecordTypeView;

    open spec fn view(&self) -> RecordTypeView {
        RecordTypeView { key: self.key@, record: self.record@ }
    }
}

impl View for SomeError {
    type V = SomeErrorView;

    open spec fn view(&self) -> SomeErrorView {
        SomeErrorView { name: self.name@, description: self.description.deep_view() }
    }
}

impl View for SubscribeMessage {
    type V = SubscribeMessageView;

    open spec fn view(&self) -> SubscribeMessageView {
        SubscribeMessageView { schema: Box::new(node_view(*self.schema)) }
    }
}

impl View for SubscriptionType {
    type V = SubscriptionTypeView;

    open spec fn view(&self) -> SubscriptionTypeView {
        SubscriptionTypeView {
            parameters: optional_object_view(self.parameters),
            message: message_view(self.message),
            errors: errors_view(self.errors@),
        }
    }
}

impl View for OutputType {
    type V = OutputTypeView;

    open spec fn view(&self) -> OutputTypeView {
        OutputTypeView {
            description: self.description.deep_view(),
            encoding: self.encoding@,
            schema: schema_view(self.schema),
        }
    }
}

impl View for InputType {
    type V = InputTypeView;

    open spec fn view(&self) -> InputTypeView {
        InputTypeView { encoding: self.encoding@, schema: schema_view(self.schema) }
    }
}

impl View for QueryType {
    type V = QueryTypeView;

    open spec fn view(&self) -> QueryTypeView {
        QueryTypeView {
            parameters: optional_object_view(self.parameters),
            output: output_view(self.output),
            errors: errors_view(self.errors@),
        }
    }
}

impl View for ProcedureType {
    type V = ProcedureTypeView;

    open spec fn view(&self) -> ProcedureTypeView {
        ProcedureTypeView {
            parameters: optional_object_view(self.parameters),
            input: input_view(self.input),
            output: output_view(self.output),
            errors: errors_view(self.errors@),
        }
    }
}

impl View for ParamsType {
    type V = ParamsTypeView;

    open spec fn view(&self) -> ParamsTypeView {
        ParamsTypeView { required: self.required.deep_view(), properties: self.properties@ }
    }
}

impl View for UnionType {
    type V = UnionTypeView;

    open spec fn view(&self) -> UnionTypeView {
        UnionTypeView { refs: self.refs.deep_view(), closed: self.closed }
    }
}

impl View for ObjectType {
    type V = ObjectTypeView;

    open spec fn view(&self) -> ObjectTypeView {
        ObjectTypeView {
            required: self.required.deep_view(),
            nullable: self.nullable.deep_view(),
            properties: self.properties@,
        }
    }
}

impl View for RefType {
    type V = RefTypeView;

    open spec fn view(&self) -> RefTypeView {
        RefTypeView { reference: self.reference@ }
    }
}

impl View for LexiconDataType {
    type V = LexiconDataTypeView;

    open spec fn view(&self) -> LexiconDataTypeView {
        data_view(*self)
    }
}

impl View for LexiconData {
    type V = LexiconDataView;

    open spec fn view(&self) -> LexiconDataView {
        node_view(*self)
    }
}

impl View for LexiconFile {
    type V = LexiconFileView;

    open spec fn view(&self) -> LexiconFileView {
        LexiconFileView {
            lexicon: self.lexicon,
            id: self.id@,
            revision: self.revision.deep_view(),
            description: self.description.deep_view(),
            defs: self.defs@,
        }
    }
}

/// The name of a node's kind.
pub open spec fn kind_name(data: LexiconDataTypeView) -> Seq<char> {
    match data {
        LexiconDataTypeView::String(_) => "String"@,
        LexiconDataTypeView::Bytes(_) => "Bytes"@,
        LexiconDataTypeView::Blob(_) => "Blob"@,
        LexiconDataTypeView::Array(_) => "Array"@,
        LexiconDataTypeView::Record(_) => "Record"@,
        LexiconDataTypeView::Subscription(_) => "Subscription"@,
        LexiconDataTypeView::Query(_) => "Query"@,
        LexiconDataTypeView::Procedure(_) => "Procedure"@,
        LexiconDataTypeView::Params(_) => "Params"@,
        LexiconDataTypeView::Union(_) => "Union"@,
        LexiconDataTypeView::Object(_) => "Object"@,
        LexiconDataTypeView::Ref(_) => "Ref"@,
        LexiconDataTypeView::Unknown => "Unknown"@,
        LexiconDataTypeView::Boolean(_) => "Boolean"@,
        LexiconDataTypeView::Null => "Null"@,
        LexiconDataTypeView::CidLink => "CidLink"@,
        LexiconDataTypeView::Integer(_) => "Integer"@,
        LexiconDataTypeView::Token => "Token"@,
    }
}

impl LexiconDataType {
    /// The name of this node's kind.
    pub fn kind(&self) -> (name: &'static str)
        ensures
            name@ == kind_name(self@),
    {
        match self {
            LexiconDataType::String(_) => "String",
            LexiconDataType::Bytes(_) => "Bytes",
            LexiconDataType::Blob(_) => "Blob",
            LexiconDataType::Array(_) => "Array",
            LexiconDataType::Record(_) => "Record",
            LexiconDataType::Subscription(_) => "Subscription",
            LexiconDataType::Query(_) => "Query",
            LexiconDataType::Procedure(_) => "Procedure",
            LexiconDataType::Params(_) => "Params",
            LexiconDataType::Union(_) => "Union",
            LexiconDataType::Object(_) => "Object",
            LexiconDataType::Ref(_) => "Ref",
            LexiconDataType::Unknown => "Unknown",
            LexiconDataType::Boolean(_) => "Boolean",
            LexiconDataType::Null => "Null",
            LexiconDataType::CidLink => "CidLink",
            LexiconDataType::Integer(_) => "Integer",
            LexiconDataType::Token => "Token",
        }
    }
}

} // verus!
