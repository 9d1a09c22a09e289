//! The declaration generator: one block of text for each definition of a
//! lexicon document.
//!
//! An object becomes a record with one field for each property, a union
//! becomes a tagged union with one variant for each member, and every other
//! kind becomes a comment that names the definition and its kind. An object
//! that stands in a property of a record is declared after the record, under
//! the name that the field has for its type.

use vstd::prelude::*;
use crate::naming::{
    external_name_annotation, local_name, nested_type_name, reference_tail, rename_annotation,
    sanitize_identifier, sanitized, synthesized_type_name,
};
use crate::node_map::NodeMap;
use crate::schema::{
    kind_name, LexiconData, LexiconDataType, LexiconDataTypeView, LexiconDataView, LexiconFile,
    LexiconFileView, ObjectType, ObjectTypeView, UnionType, UnionTypeView,
};
use crate::text::same_text;

verus! {

/// Whether `name` is one of `names`.
pub open spec fn listed(names: Seq<Seq<char>>, name: Seq<char>) -> bool {
    exists|i: int| 0 <= i < names.len() && #[trigger] names[i] == name
}

/// Whether the field of the property `name` is optional: the property is not
/// required, or it is nullable. Either is enough.
pub open spec fn is_optional(obj: ObjectTypeView, name: Seq<char>) -> bool {
    !listed(obj.required, name) || listed(obj.nullable, name)
}

/// The type that a node has as a field of the definition `defname`, under
/// the property `propname`, before optionality.
///
/// A node of a kind that is not named here has no type of its own as a field
/// and is carried as text.
pub open spec fn field_type_text(
    defname: Seq<char>,
    propname: Seq<char>,
    node: LexiconDataView,
) -> Seq<char>
    decreases node,
{
    match node.data {
        LexiconDataTypeView::String(_) => "String"@,
        LexiconDataTypeView::Integer(_) => "i64"@,
        LexiconDataTypeView::Boolean(_) => "bool"@,
        LexiconDataTypeView::Bytes(_) => "Vec<u8>"@,
        LexiconDataTypeView::CidLink => "String"@,
        LexiconDataTypeView::Ref(r) => local_name(r.reference),
        LexiconDataTypeView::Array(a) => "Vec<"@ + field_type_text(defname, propname, *a.items)
            + ">"@,
        LexiconDataTypeView::Object(_) => nested_type_name(defname, propname),
        _ => "String"@,
    }
}

/// The optional form of a type.
pub open spec fn optional_type_text(base: Seq<char>) -> Seq<char> {
    "Option<"@ + base + ">"@
}

/// The type of a field, given whether it is optional.
pub open spec fn final_type_text(optional: bool, base: Seq<char>) -> Seq<char> {
    if optional {
        optional_type_text(base)
    } else {
        base
    }
}

/// The documentation line of a field: empty without a description.
pub open spec fn doc_line(description: Option<Seq<char>>) -> Seq<char> {
    match description {
        Some(d) => "    /// "@ + d + "\n"@,
        None => Seq::empty(),
    }
}

/// The lines of one field of the record `defname`: its documentation, the
/// annotation with its wire name where the identifier differs, and the field
/// itself.
pub open spec fn field_text(
    defname: Seq<char>,
    obj: ObjectTypeView,
    propname: Seq<char>,
    node: LexiconDataView,
) -> Seq<char> {
    doc_line(node.description) + rename_annotation(propname) + "    pub "@ + sanitized(propname)
        + ": "@ + final_type_text(
        is_optional(obj, propname),
        field_type_text(defname, propname, node),
    ) + ",\n"@
}

/// The lines of the fields of the given properties, in their order.
pub open spec fn fields_text(
    defname: Seq<char>,
    obj: ObjectTypeView,
    properties: Seq<(Seq<char>, LexiconDataView)>,
) -> Seq<char>
    decreases properties.len(),
{
    if properties.len() == 0 {
        Seq::empty()
    } else {
        fields_text(defname, obj, properties.drop_last()) + field_text(
            defname,
            obj,
            properties.last().0,
            properties.last().1,
        )
    }
}

/// The record declared for the object definition `defname`.
pub open spec fn record_text(defname: Seq<char>, obj: ObjectTypeView) -> Seq<char> {
    "#[derive(Debug, Clone, Serialize, Deserialize)]\npub struct "@ + defname + " {\n"@
        + fields_text(defname, obj, obj.properties) + "}\n\n"@
}

/// The line of the variant that stands for one member of a union.
pub open spec fn variant_text(reference: Seq<char>) -> Seq<char> {
    "    "@ + local_name(reference) + ",\n"@
}

/// The lines of the variants of the given members, in their order.
pub open spec fn variants_text(refs: Seq<Seq<char>>) -> Seq<char>
    decreases refs.len(),
{
    if refs.len() == 0 {
        Seq::empty()
    } else {
        variants_text(refs.drop_last()) + variant_text(refs.last())
    }
}

/// The tagged union declared for the union definition `defname`.
pub open spec fn union_text(defname: Seq<char>, u: UnionTypeView) -> Seq<char> {
    "#[derive(Debug, Clone, Serialize, Deserialize)]\n#[serde(tag = \"type\")]\npub enum "@
        + defname + " {\n"@ + variants_text(u.refs) + "}\n\n"@
}

/// The comment that stands for a definition of a kind that has no
/// declaration.
pub open spec fn placeholder_text(defname: Seq<char>, data: LexiconDataTypeView) -> Seq<char> {
    "/* "@ + defname + ": "@ + kind_name(data) + " - not generated */\n"@
}

/// The declaration generated for the definition `defname`, without those of
/// the types that its fields name for the objects in its properties.
pub open spec fn declaration_text(defname: Seq<char>, def: LexiconDataView) -> Seq<char> {
    match def.data {
        LexiconDataTypeView::Object(o) => record_text(defname, o),
        LexiconDataTypeView::Union(u) => union_text(defname, u),
        _ => placeholder_text(defname, def.data),
    }
}

/// The declarations of the objects that stand in `node`, a property
/// `propname` of the record `defname`, and in the properties of those
/// objects: each name with its declaration, an object before those that
/// stand in it, and then in the order of the properties. A name may come
/// more than once.
pub open spec fn nested_of_node(
    defname: Seq<char>,
    propname: Seq<char>,
    node: LexiconDataView,
) -> Seq<(Seq<char>, Seq<char>)>
    decreases node, 0nat,
{
    match node.data {
        LexiconDataTypeView::Object(o) => {
            let name = nested_type_name(defname, propname);
            seq![(name, record_text(name, o))] + nested_of_properties(
                name,
                o.properties,
                o.properties.len(),
            )
        },
        LexiconDataTypeView::Array(a) => nested_of_node(defname, propname, *a.items),
        _ => Seq::empty(),
    }
}

/// The declarations of the objects that stand in the first `n` properties of
/// the record `defname`.
pub open spec fn nested_of_properties(
    defname: Seq<char>,
    properties: Seq<(Seq<char>, LexiconDataView)>,
    n: nat,
) -> Seq<(Seq<char>, Seq<char>)>
    decreases properties, n,
{
    if n == 0 || n > properties.len() {
        Seq::empty()
    } else {
        nested_of_properties(defname, properties, (n - 1) as nat) + nested_of_node(
            defname,
            properties[n - 1].0,
            properties[n - 1].1,
        )
    }
}

/// Whether one of the declarations has the name `name`.
pub open spec fn is_declared(list: Seq<(Seq<char>, Seq<char>)>, name: Seq<char>) -> bool {
    exists|i: int| 0 <= i < list.len() && (#[trigger] list[i]).0 == name
}

/// The first `n` declarations, each name once: of two declarations of one
/// name the first stands.
pub open spec fn each_once(list: Seq<(Seq<char>, Seq<char>)>, n: nat) -> Seq<
    (Seq<char>, Seq<char>),
>
    decreases n,
{
    if n == 0 || n > list.len() {
        Seq::empty()
    } else {
        let front = each_once(list, (n - 1) as nat);
        if is_declared(front, list[n - 1].0) {
            front
        } else {
            front.push(list[n - 1])
        }
    }
}

/// The declarations of the types that the fields of the definition `defname`
/// name for the objects standing in its properties, each name once.
pub open spec fn nested_declarations(defname: Seq<char>, def: LexiconDataView) -> Seq<
    (Seq<char>, Seq<char>),
> {
    match def.data {
        LexiconDataTypeView::Object(o) => {
            let all = nested_of_properties(defname, o.properties, o.properties.len());
            each_once(all, all.len())
        },
        _ => Seq::empty(),
    }
}

/// The texts of the given declarations, one after the other.
pub open spec fn joined(list: Seq<(Seq<char>, Seq<char>)>) -> Seq<char>
    decreases list.len(),
{
    if list.len() == 0 {
        Seq::empty()
    } else {
        joined(list.drop_last()) + list.last().1
    }
}

/// The whole block of the definition `defname`: its own declaration, and
/// after it the declarations of the types that its fields name for the
/// objects standing in its properties.
pub open spec fn block_text(defname: Seq<char>, def: LexiconDataView) -> Seq<char> {
    declaration_text(defname, def) + joined(nested_declarations(defname, def))
}

/// What is written for the given definitions: the whole block of each, in
/// their order, each followed by a line break.
pub open spec fn output_text(defs: Seq<(Seq<char>, LexiconDataView)>) -> Seq<char>
    decreases defs.len(),
{
    if defs.len() == 0 {
        Seq::empty()
    } else {
        output_text(defs.drop_last()) + block_text(defs.last().0, defs.last().1) + "\n"@
    }
}

/// Whether `name` is one of `names`.
pub fn is_listed(names: &Vec<String>, name: &str) -> (found: bool)
    ensures
        found == listed(names.deep_view(), name@),
{
    let mut i: usize = 0;
    while i < names.len()
        invariant
            0 <= i <= names.len(),
            forall|j: int| 0 <= j < i ==> #[trigger] names.deep_view()[j] != name@,
        decreases names.len() - i,
    {
        if same_text(names[i].as_str(), name) {
            assert(names.deep_view()[i as int] == name@);
            return true;
        }
        i += 1;
    }
    false
}

/// Whether the field of the property `name` of `obj` is optional.
pub fn is_optional_field(obj: &ObjectType, name: &str) -> (optional: bool)
    ensures
        optional == is_optional(obj@, name@),
{
    !is_listed(&obj.required, name) || is_listed(&obj.nullable, name)
}

/// The type that `node` has as a field of the definition `defname`, under
/// the property `propname`, before optionality.
pub fn field_type(defname: &str, propname: &str, node: &LexiconData) -> (ty: String)
    ensures
        ty@ == field_type_text(defname@, propname@, node@),
    decreases node,
{
    match &node.data {
        LexiconDataType::String(_) => "String".to_owned(),
        LexiconDataType::Integer(_) => "i64".to_owned(),
        LexiconDataType::Boolean(_) => "bool".to_owned(),
        LexiconDataType::Bytes(_) => "Vec<u8>".to_owned(),
        LexiconDataType::CidLink => "String".to_owned(),
        LexiconDataType::Ref(r) => reference_tail(r.reference.as_str()),
        LexiconDataType::Array(a) => {
            let item = field_type(defname, propname, &*a.items);
            let mut ty = "Vec<".to_owned();
            ty.append(item.as_str());
            ty.append(">");
            ty
        },
        LexiconDataType::Object(_) => synthesized_type_name(defname, propname),
        _ => "String".to_owned(),
    }
}

/// The type of a field, given whether it is optional.
pub fn final_type(optional: bool, base: String) -> (ty: String)
    ensures
        ty@ == final_type_text(optional, base@),
{
    if optional {
        let mut ty = "Option<".to_owned();
        ty.append(base.as_str());
        ty.append(">");
        ty
    } else {
        base
    }
}

/// The documentation line of a field.
pub fn doc_comment(description: &Option<String>) -> (line: String)
    ensures
        line@ == doc_line(description.deep_view()),
{
    match description {
        Some(d) => {
            let mut line = "    /// ".to_owned();
            line.append(d.as_str());
            line.append("\n");
            line
        },
        None => String::new(),
    }
}

/// The lines of the field that the record `defname` has for the property
/// `propname` of `obj`, whose node is `node`.
pub fn codegen_field(defname: &str, obj: &ObjectType, propname: &str, node: &LexiconData) -> (out:
    String)
    ensures
        out@ == field_text(defname@, obj@, propname@, node@),
{
    let rename = external_name_annotation(propname);
    let ident = sanitize_identifier(propname);
    let ty = final_type(is_optional_field(obj, propname), field_type(defname, propname, node));
    let mut out = doc_comment(&node.description);
    out.append(rename.as_str());
    out.append("    pub ");
    out.append(ident.as_str());
    out.append(": ");
    out.append(ty.as_str());
    out.append(",\n");
    out
}

/// The record declared for the object definition `defname`.
pub fn codegen_record(defname: &str, obj: &ObjectType) -> (out: String)
    ensures
        out@ == record_text(defname@, obj@),
{
    let entries = obj.properties.entries();
    let mut fields = String::new();
    let mut i: usize = 0;
    while i < entries.len()
        invariant
            0 <= i <= entries.len(),
            entries@.len() == obj.properties@.len(),
            forall|j: int|
                0 <= j < entries@.len() ==> (#[trigger] entries@[j]).0@ == obj.properties@[j].0
                    && entries@[j].1@ == obj.properties@[j].1,
            fields@ == fields_text(defname@, obj@, obj.properties@.take(i as int)),
        decreases entries.len() - i,
    {
        let (name, node) = entries[i];
        let field = codegen_field(defname, obj, name.as_str(), node);
        proof {
            assert(obj.properties@.take(i + 1).drop_last() =~= obj.properties@.take(i as int));
        }
        fields.append(field.as_str());
        i += 1;
    }
    proof {
        assert(obj.properties@.take(obj.properties@.len() as int) =~= obj.properties@);
    }
    let mut out = "#[derive(Debug, Clone, Serialize, Deserialize)]\npub struct ".to_owned();
    out.append(defname);
    out.append(" {\n");
    out.append(fields.as_str());
    out.append("}\n\n");
    out
}

/// The tagged union declared for the union definition `defname`.
pub fn codegen_union(defname: &str, u: &UnionType) -> (out: String)
    ensures
        out@ == union_text(defname@, u@),
{
    let mut variants = String::new();
    let mut i: usize = 0;
    while i < u.refs.len()
        invariant
            0 <= i <= u.refs.len(),
            variants@ == variants_text(u.refs.deep_view().take(i as int)),
        decreases u.refs.len() - i,
    {
        let variant = reference_tail(u.refs[i].as_str());
        proof {
            assert(u.refs.deep_view().take(i + 1).drop_last() =~= u.refs.deep_view().take(
                i as int,
            ));
            assert(u.refs.deep_view().take(i + 1).last() == u.refs@[i as int]@);
        }
        variants.append("    ");
        variants.append(variant.as_str());
        variants.append(",\n");
        i += 1;
    }
    proof {
        assert(u.refs.deep_view().take(u.refs@.len() as int) =~= u.refs.deep_view());
    }
    let mut out =
        "#[derive(Debug, Clone, Serialize, Deserialize)]\n#[serde(tag = \"type\")]\npub enum ".to_owned();
    out.append(defname);
    out.append(" {\n");
    out.append(variants.as_str());
    out.append("}\n\n");
    out
}

/// The comment that stands for a definition of a kind that has no
/// declaration.
pub fn codegen_placeholder(defname: &str, data: &LexiconDataType) -> (out: String)
    ensures
        out@ == placeholder_text(defname@, data@),
{
    let mut out = "/* ".to_owned();
    out.append(defname);
    out.append(": ");
    out.append(data.kind());
    out.append(" - not generated */\n");
    out
}

/// The declaration generated for the definition `defname`.
///
/// A field whose property holds an object names a type for it; those types
/// are declared by `codegen_nested`, and `codegen_block` gives the
/// declaration together with them.
pub fn codegen_one_def(defname: &str, def: &LexiconData) -> (out: String)
    ensures
        out@ == declaration_text(defname@, def@),
{
    match &def.data {
        LexiconDataType::Object(o) => codegen_record(defname, o),
        LexiconDataType::Union(u) => codegen_union(defname, u),
        other => codegen_placeholder(defname, other),
    }
}

/// Adds to `out` the declarations of the objects that stand in `node`, a
/// property `propname` of the record `defname`.
fn collect_nested(
    defname: &str,
    propname: &str,
    node: &LexiconData,
    out: &mut Vec<(String, String)>,
)
    ensures
        final(out).deep_view() == old(out).deep_view() + nested_of_node(
            defname@,
            propname@,
            node@,
        ),
    decreases node@, 0nat,
{
    match &node.data {
        LexiconDataType::Object(o) => {
            let ghost before = out.deep_view();
            let name = synthesized_type_name(defname, propname);
            let text = codegen_record(name.as_str(), o);
            let ghost pair = (name@, text@);
            let inner = name.clone();
            out.push((name, text));
            proof {
                assert(out.deep_view() =~= before.push(pair));
                assert(before.push(pair) =~= before + seq![pair]);
            }
            collect_nested_in(inner.as_str(), &o.properties, out);
        },
        LexiconDataType::Array(a) => {
            proof {
                let v = node@;
                let av = v.data->Array_0;
                assert(v.data == LexiconDataTypeView::Array(a@));
                assert(av == a@);
                assert(*av.items == (*a.items)@);
                assert(decreases_to!(v => v.data));
                assert(decreases_to!(v.data => av));
                assert(decreases_to!(av => *av.items));
                assert(decreases_to!(v => *av.items));
            }
            collect_nested(defname, propname, &*a.items, out);
        },
        _ => {
            assert(out.deep_view() + Seq::<(Seq<char>, Seq<char>)>::empty() =~= out.deep_view());
        },
    }
}

/// Adds to `out` the declarations of the objects that stand in the
/// properties of the record `defname`.
pub(crate) fn collect_nested_in(
    defname: &str,
    properties: &NodeMap,
    out: &mut Vec<(String, String)>,
)
    ensures
        final(out).deep_view() == old(out).deep_view() + nested_of_properties(
            defname@,
            properties@,
            properties@.len(),
        ),
    decreases properties@, properties@.len(),
{
    let ghost start = out.deep_view();
    let entries = properties.entries();
    let mut i: usize = 0;
    proof {
        assert(start + Seq::<(Seq<char>, Seq<char>)>::empty() =~= start);
    }
    while i < entries.len()
        invariant
            0 <= i <= entries.len(),
            entries@.len() == properties@.len(),
            forall|j: int|
                0 <= j < entries@.len() ==> (#[trigger] entries@[j]).0@ == properties@[j].0
                    && entries@[j].1@ == properties@[j].1,
            out.deep_view() == start + nested_of_properties(defname@, properties@, i as nat),
        decreases entries.len() - i,
    {
        let (name, node) = entries[i];
        proof {
            assert(decreases_to!(properties@ => properties@[i as int]));
        }
        collect_nested(defname, name.as_str(), node, out);
        i += 1;
    }
}

/// Whether one of the declarations has the name `name`.
fn holds_declaration(list: &Vec<(String, String)>, name: &str) -> (found: bool)
    ensures
        found == is_declared(list.deep_view(), name@),
{
    let mut i: usize = 0;
    while i < list.len()
        invariant
            0 <= i <= list.len(),
            forall|j: int| 0 <= j < i ==> (#[trigger] list.deep_view()[j]).0 != name@,
        decreases list.len() - i,
    {
        assert(list.deep_view()[i as int].0 == list@[i as int].0@);
        if same_text(list[i].0.as_str(), name) {
            return true;
        }
        i += 1;
    }
    false
}

/// The declarations of the types that the fields of the definition `defname`
/// name for the objects standing in its properties: each name with its
/// declaration, each name once, an object before those that stand in it.
pub fn codegen_nested(defname: &str, def: &LexiconData) -> (found: Vec<(String, String)>)
    ensures
        found.deep_view() == nested_declarations(defname@, def@),
{
    let mut found: Vec<(String, String)> = Vec::new();
    proof {
        assert(found.deep_view() =~= Seq::<(Seq<char>, Seq<char>)>::empty());
    }
    match &def.data {
        LexiconDataType::Object(o) => {
            let mut all: Vec<(String, String)> = Vec::new();
            proof {
                assert(all.deep_view() =~= Seq::<(Seq<char>, Seq<char>)>::empty());
            }
            collect_nested_in(defname, &o.properties, &mut all);
            proof {
                assert(all.deep_view() =~= nested_of_properties(
                    defname@,
                    o.properties@,
                    o.properties@.len(),
                ));
            }
            let mut i: usize = 0;
            while i < all.len()
                invariant
                    0 <= i <= all.len(),
                    found.deep_view() == each_once(all.deep_view(), i as nat),
                decreases all.len() - i,
            {
                if !holds_declaration(&found, all[i].0.as_str()) {
                    let ghost before = found.deep_view();
                    let pair = (all[i].0.clone(), all[i].1.clone());
                    assert((pair.0@, pair.1@) == all.deep_view()[i as int]);
                    found.push(pair);
                    proof {
                        assert(found.deep_view() =~= before.push(all.deep_view()[i as int]));
                    }
                }
                i += 1;
            }
            found
        },
        _ => found,
    }
}

/// The whole block of the definition `defname`: its own declaration, and
/// after it the declarations of the types that its fields name for the
/// objects standing in its properties.
pub fn codegen_block(defname: &str, def: &LexiconData) -> (out: String)
    ensures
        out@ == block_text(defname@, def@),
{
    let mut out = codegen_one_def(defname, def);
    let ghost own = out@;
    let nested = codegen_nested(defname, def);
    let mut i: usize = 0;
    proof {
        assert(nested.deep_view().take(0) =~= Seq::<(Seq<char>, Seq<char>)>::empty());
    }
    while i < nested.len()
        invariant
            0 <= i <= nested.len(),
            out@ == own + joined(nested.deep_view().take(i as int)),
        decreases nested.len() - i,
    {
        proof {
            assert(nested.deep_view().take(i + 1).drop_last() =~= nested.deep_view().take(
                i as int,
            ));
            assert(nested.deep_view().take(i + 1).last().1 == nested@[i as int].1@);
        }
        out.append(nested[i].1.as_str());
        i += 1;
    }
    proof {
        assert(nested.deep_view().take(nested@.len() as int) =~= nested.deep_view());
    }
    out
}

/// The blocks generated for the definitions of a document: the whole block
/// of each definition, in the order of the document.
pub fn codegen_defs(lex: &LexiconFile) -> (blocks: Vec<String>)
    ensures
        blocks@.len() == lex@.defs.len(),
        forall|i: int|
            0 <= i < blocks@.len() ==> (#[trigger] blocks@[i])@ == block_text(
                lex@.defs[i].0,
                lex@.defs[i].1,
            ),
{
    let entries = lex.defs.entries();
    let mut blocks: Vec<String> = Vec::new();
    let mut i: usize = 0;
    while i < entries.len()
        invariant
            0 <= i <= entries.len(),
            entries@.len() == lex.defs@.len(),
            forall|j: int|
                0 <= j < entries@.len() ==> (#[trigger] entries@[j]).0@ == lex.defs@[j].0
                    && entries@[j].1@ == lex.defs@[j].1,
            blocks@.len() == i,
            forall|j: int|
                0 <= j < i ==> (#[trigger] blocks@[j])@ == block_text(
                    lex.defs@[j].0,
                    lex.defs@[j].1,
                ),
        decreases entries.len() - i,
    {
        let (name, def) = entries[i];
        blocks.push(codegen_block(name.as_str(), def));
        i += 1;
    }
    blocks
}

/// What is written for a document: the whole block of each definition, in
/// the order of the document, each followed by a line break.
pub fn codegen_file(lex: &LexiconFile) -> (out: String)
    ensures
        out@ == output_text(lex@.defs),
{
    let entries = lex.defs.entries();
    let mut out = String::new();
    let mut i: usize = 0;
    while i < entries.len()
        invariant
            0 <= i <= entries.len(),
            entries@.len() == lex.defs@.len(),
            forall|j: int|
                0 <= j < entries@.len() ==> (#[trigger] entries@[j]).0@ == lex.defs@[j].0
                    && entries@[j].1@ == lex.defs@[j].1,
            out@ == output_text(lex.defs@.take(i as int)),
        decreases entries.len() - i,
    {
        let (name, def) = entries[i];
        let block = codegen_block(name.as_str(), def);
        proof {
            assert(lex.defs@.take(i + 1).drop_last() =~= lex.defs@.take(i as int));
        }
        out.append(block.as_str());
        out.append("\n");
        i += 1;
    }
    proof {
        assert(lex.defs@.take(lex.defs@.len() as int) =~= lex.defs@);
    }
    out
}

/// A field is optional exactly when its property is not required or is
/// nullable, whichever way the two combine; and the optional form of a type
/// is never the type itself.
pub proof fn lemma_field_optionality(obj: ObjectTypeView, name: Seq<char>, base: Seq<char>)
    ensures
        listed(obj.required, name) && !listed(obj.nullable, name) ==> final_type_text(
            is_optional(obj, name),
            base,
        ) == base,
        listed(obj.required, name) && listed(obj.nullable, name) ==> final_type_text(
            is_optional(obj, name),
            base,
        ) == optional_type_text(base),
        !listed(obj.required, name) && !listed(obj.nullable, name) ==> final_type_text(
            is_optional(obj, name),
            base,
        ) == optional_type_text(base),
        !listed(obj.required, name) && listed(obj.nullable, name) ==> final_type_text(
            is_optional(obj, name),
            base,
        ) == optional_type_text(base),
        optional_type_text(base) != base,
{
    reveal_strlit("Option<");
    assert(optional_type_text(base).len() > base.len());
}

/// A reference resolves to the same local name wherever it stands: as the
/// type of a field, as the type of the items of a list, and as the variant of
/// a union member.
pub proof fn lemma_reference_resolves_alike(
    defname: Seq<char>,
    propname: Seq<char>,
    reference: Seq<char>,
    node: LexiconDataView,
    list: LexiconDataView,
)
    requires
        node.data matches LexiconDataTypeView::Ref(r) && r.reference == reference,
        list.data matches LexiconDataTypeView::Array(a) && *a.items == node,
    ensures
        field_type_text(defname, propname, node) == local_name(reference),
        field_type_text(defname, propname, list) == "Vec<"@ + local_name(reference) + ">"@,
        variant_text(reference) == "    "@ + field_type_text(defname, propname, node) + ",\n"@,
{
    assert(field_type_text(defname, propname, node) == local_name(reference));
}

/// The output follows the order of the definitions: what is written for two
/// runs of definitions, one after the other, is what is written for the
/// first followed by what is written for the second.
pub proof fn lemma_output_follows_order(
    first: Seq<(Seq<char>, LexiconDataView)>,
    second: Seq<(Seq<char>, LexiconDataView)>,
)
    ensures
        output_text(first + second) == output_text(first) + output_text(second),
    decreases second.len(),
{
    if second.len() == 0 {
        assert(first + second =~= first);
        assert(output_text(first) + output_text(second) =~= output_text(first));
    } else {
        let all = first + second;
        assert(all.drop_last() =~= first + second.drop_last());
        assert(all.last() == second.last());
        lemma_output_follows_order(first, second.drop_last());
        let block = block_text(second.last().0, second.last().1);
        assert(output_text(all) =~= output_text(first) + (output_text(second.drop_last()) + block
            + "\n"@));
    }
}

/// The output depends on nothing but the definitions and their order: two
/// documents with the same definitions in the same order give the same
/// blocks and the same output, whatever else differs between them.
pub proof fn lemma_output_repeatable(a: LexiconFileView, b: LexiconFileView)
    requires
        a.defs == b.defs,
    ensures
        output_text(a.defs) == output_text(b.defs),
        forall|i: int|
            0 <= i < a.defs.len() ==> block_text(a.defs[i].0, a.defs[i].1) == block_text(
                #[trigger] b.defs[i].0,
                b.defs[i].1,
            ),
{
}

/// Among the declarations that stand each once, no two have one name, and
/// every name of the list is declared.
pub proof fn lemma_each_once(list: Seq<(Seq<char>, Seq<char>)>, n: nat)
    requires
        n <= list.len(),
    ensures
        forall|i: int, j: int|
            0 <= i < j < each_once(list, n).len() ==> (#[trigger] each_once(list, n)[i]).0 != (
            #[trigger] each_once(list, n)[j]).0,
        forall|k: int| 0 <= k < n ==> is_declared(each_once(list, n), (#[trigger] list[k]).0),
        forall|i: int|
            0 <= i < each_once(list, n).len() ==> is_declared(
                list,
                (#[trigger] each_once(list, n)[i]).0,
            ),
    decreases n,
{
    if n > 0 {
        let front = each_once(list, (n - 1) as nat);
        let all = each_once(list, n);
        let last = list[n - 1];
        lemma_each_once(list, (n - 1) as nat);
        assert forall|k: int| 0 <= k < n implies is_declared(all, (#[trigger] list[k]).0) by {
            if k < n - 1 {
                let m = choose|m: int| 0 <= m < front.len() && (#[trigger] front[m]).0 == list[k].0;
                assert(all[m].0 == list[k].0);
            } else if is_declared(front, last.0) {
            } else {
                assert(all[all.len() - 1].0 == last.0);
            }
        }
        assert forall|i: int| 0 <= i < all.len() implies is_declared(
            list,
            (#[trigger] all[i]).0,
        ) by {
            if i < front.len() {
                assert(all[i] == front[i]);
            } else {
                assert(all[i] == last);
                assert(list[n - 1].0 == all[i].0);
            }
        }
        assert forall|i: int, j: int| 0 <= i < j < all.len() implies (#[trigger] all[i]).0 != (
        #[trigger] all[j]).0 by {
            assert(all[i] == front[i]);
            if j < front.len() {
                assert(all[j] == front[j]);
            }
        }
    }
}

} // verus!
