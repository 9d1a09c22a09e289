//! What a document asks for that the generator cannot give.
//!
//! None of it stops the generation. A name that an object lists as required
//! or nullable without having such a property, a union without a member, a
//! member of a union that points to no definition of its document, and two
//! members that resolve to one local name are inconsistencies of the schema.
//! So are two objects in the properties of one definition whose types get
//! one name, of which only the first is declared.
//! A definition of a kind that has no declaration, and a property of a kind
//! that has no type as a field, are carried in a lesser form: as a comment,
//! and as text.

use vstd::prelude::*;
use crate::codegen::{collect_nested_in, field_type_text, is_declared, nested_of_properties};
use crate::naming::{
    definition_id, local_name, nested_type_name, reference_owner, reference_tail,
    synthesized_type_name,
};
use crate::node_map::{has_key, NodeMap};
use crate::schema::{
    kind_name, LexiconData, LexiconDataType, LexiconDataTypeView, LexiconDataView, LexiconFile,
    LexiconFileView, ObjectType, ObjectTypeView,
};
use crate::text::same_text;

verus! {

/// One thing that a document asks for and does not get.
#[derive(Debug, Clone, PartialEq, Eq)]
pub enum Diagnostic {
    /// An object lists a name as required and has no property of that name.
    UnknownRequired { definition: String, name: String },
    /// An object lists a name as nullable and has no property of that name.
    UnknownNullable { definition: String, name: String },
    /// A member of a union points into its own document, to no definition.
    UnresolvedReference { definition: String, reference: String },
    /// A member of a union resolves to the local name of an earlier member,
    /// so that two variants have one name.
    DuplicateVariant { definition: String, variant: String },
    /// A union has no member.
    EmptyUnion { definition: String },
    /// Two objects that stand in the properties of a definition get one
    /// name for their types; only the first is declared.
    DuplicateNestedType { definition: String, name: String },
    /// A definition is of a kind that has no declaration.
    UnsupportedDefinition { definition: String, kind: String },
    /// A property is of a kind that has no type as a field.
    UnsupportedField { definition: String, property: String },
}

/// The view of a `Diagnostic`.
pub enum DiagnosticView {
    UnknownRequired { definition: Seq<char>, name: Seq<char> },
    UnknownNullable { definition: Seq<char>, name: Seq<char> },
    UnresolvedReference { definition: Seq<char>, reference: Seq<char> },
    DuplicateVariant { definition: Seq<char>, variant: Seq<char> },
    EmptyUnion { definition: Seq<char> },
    DuplicateNestedType { definition: Seq<char>, name: Seq<char> },
    UnsupportedDefinition { definition: Seq<char>, kind: Seq<char> },
    UnsupportedField { definition: Seq<char>, property: Seq<char> },
}

impl View for Diagnostic {
    type V = DiagnosticView;

    open spec fn view(&self) -> DiagnosticView {
        match *self {
            Diagnostic::UnknownRequired { definition, name } => DiagnosticView::UnknownRequired {
                definition: definition@,
                name: name@,
            },
            Diagnostic::UnknownNullable { definition, name } => DiagnosticView::UnknownNullable {
                definition: definition@,
                name: name@,
            },
            Diagnostic::UnresolvedReference {
                definition,
                reference,
            } => DiagnosticView::UnresolvedReference {
                definition: definition@,
                reference: reference@,
            },
            Diagnostic::DuplicateVariant { definition, variant } => DiagnosticView::DuplicateVariant {
                definition: definition@,
                variant: variant@,
            },
            Diagnostic::EmptyUnion { definition } => DiagnosticView::EmptyUnion {
                definition: definition@,
            },
            Diagnostic::DuplicateNestedType {
                definition,
                name,
            } => DiagnosticView::DuplicateNestedType { definition: definition@, name: name@ },
            Diagnostic::UnsupportedDefinition {
                definition,
                kind,
            } => DiagnosticView::UnsupportedDefinition { definition: definition@, kind: kind@ },
            Diagnostic::UnsupportedField {
                definition,
                property,
            } => DiagnosticView::UnsupportedField { definition: definition@, property: property@ },
        }
    }
}

/// What a diagnostic says, in words.
pub open spec fn message_text(d: DiagnosticView) -> Seq<char> {
    match d {
        DiagnosticView::UnknownRequired { definition, name } => definition
            + ": required name `"@ + name + "` is not a property"@,
        DiagnosticView::UnknownNullable { definition, name } => definition
            + ": nullable name `"@ + name + "` is not a property"@,
        DiagnosticView::UnresolvedReference { definition, reference } => definition
            + ": reference `"@ + reference + "` points to no definition"@,
        DiagnosticView::DuplicateVariant { definition, variant } => definition + ": variant `"@
            + variant + "` stands for more than one member"@,
        DiagnosticView::EmptyUnion { definition } => definition + ": union has no member"@,
        DiagnosticView::DuplicateNestedType { definition, name } => definition + ": type `"@
            + name + "` is named for more than one object"@,
        DiagnosticView::UnsupportedDefinition { definition, kind } => definition + ": kind "@
            + kind + " has no declaration"@,
        DiagnosticView::UnsupportedField { definition, property } => definition
            + ": property `"@ + property + "` is carried as text"@,
    }
}

impl Diagnostic {
    /// What this diagnostic says, in words.
    pub fn message(&self) -> (text: String)
        ensures
            text@ == message_text(self@),
    {
        match self {
            Diagnostic::UnknownRequired { definition, name } => {
                let mut text = definition.clone();
                text.append(": required name `");
                text.append(name.as_str());
                text.append("` is not a property");
                text
            },
            Diagnostic::UnknownNullable { definition, name } => {
                let mut text = definition.clone();
                text.append(": nullable name `");
                text.append(name.as_str());
                text.append("` is not a property");
                text
            },
            Diagnostic::UnresolvedReference { definition, reference } => {
                let mut text = definition.clone();
                text.append(": reference `");
                text.append(reference.as_str());
                text.append("` points to no definition");
                text
            },
            Diagnostic::DuplicateVariant { definition, variant } => {
                let mut text = definition.clone();
                text.append(": variant `");
                text.append(variant.as_str());
                text.append("` stands for more than one member");
                text
            },
            Diagnostic::EmptyUnion { definition } => {
                let mut text = definition.clone();
                text.append(": union has no member");
                text
            },
            Diagnostic::DuplicateNestedType { definition, name } => {
                let mut text = definition.clone();
                text.append(": type `");
                text.append(name.as_str());
                text.append("` is named for more than one object");
                text
            },
            Diagnostic::UnsupportedDefinition { definition, kind } => {
                let mut text = definition.clone();
                text.append(": kind ");
                text.append(kind.as_str());
                text.append(" has no declaration");
                text
            },
            Diagnostic::UnsupportedField { definition, property } => {
                let mut text = definition.clone();
                text.append(": property `");
                text.append(property.as_str());
                text.append("` is carried as text");
                text
            },
        }
    }
}

/// The views of a list of diagnostics.
pub open spec fn diagnostics_view(list: Seq<Diagnostic>) -> Seq<DiagnosticView> {
    Seq::new(list.len(), |i: int| list[i]@)
}

/// The diagnostic for a listed name without a property.
pub open spec fn unknown_name(definition: Seq<char>, name: Seq<char>, nullable: bool)
    -> DiagnosticView {
    if nullable {
        DiagnosticView::UnknownNullable { definition, name }
    } else {
        DiagnosticView::UnknownRequired { definition, name }
    }
}

/// The diagnostics for the listed names that are no properties, in the order
/// of the list.
pub open spec fn name_diagnostics(
    definition: Seq<char>,
    names: Seq<Seq<char>>,
    properties: Seq<(Seq<char>, LexiconDataView)>,
    nullable: bool,
) -> Seq<DiagnosticView>
    decreases names.len(),
{
    if names.len() == 0 {
        Seq::empty()
    } else {
        let front = name_diagnostics(definition, names.drop_last(), properties, nullable);
        if has_key(properties, names.last()) {
            front
        } else {
            front.push(unknown_name(definition, names.last(), nullable))
        }
    }
}

/// Whether a node has a type of its own as a field: whether it is of one of
/// the kinds that the generator maps, or a list of such.
pub open spec fn has_field_mapping(node: LexiconDataView) -> bool
    decreases node,
{
    match node.data {
        LexiconDataTypeView::String(_) => true,
        LexiconDataTypeView::Integer(_) => true,
        LexiconDataTypeView::Boolean(_) => true,
        LexiconDataTypeView::Bytes(_) => true,
        LexiconDataTypeView::CidLink => true,
        LexiconDataTypeView::Ref(_) => true,
        LexiconDataTypeView::Object(_) => true,
        LexiconDataTypeView::Array(a) => has_field_mapping(*a.items),
        _ => false,
    }
}

/// The diagnostics for the properties that have no type as a field, in the
/// order of the properties.
pub open spec fn field_diagnostics(
    definition: Seq<char>,
    properties: Seq<(Seq<char>, LexiconDataView)>,
) -> Seq<DiagnosticView>
    decreases properties.len(),
{
    if properties.len() == 0 {
        Seq::empty()
    } else {
        let front = field_diagnostics(definition, properties.drop_last());
        if has_field_mapping(properties.last().1) {
            front
        } else {
            front.push(
                DiagnosticView::UnsupportedField { definition, property: properties.last().0 },
            )
        }
    }
}

/// Whether a reference in the document `id` is not at fault: it points into
/// another document, or its local name is one of the definitions.
pub open spec fn resolves(
    id: Seq<char>,
    defs: Seq<(Seq<char>, LexiconDataView)>,
    reference: Seq<char>,
) -> bool {
    (definition_id(reference).len() > 0 && definition_id(reference) != id) || has_key(
        defs,
        local_name(reference),
    )
}

/// Whether one of the references resolves to the local name `variant`.
pub open spec fn names_variant(refs: Seq<Seq<char>>, variant: Seq<char>) -> bool {
    exists|i: int| 0 <= i < refs.len() && local_name(#[trigger] refs[i]) == variant
}

/// The diagnostics for the members of a union, in the order of the members:
/// for each member, that it does not resolve, and then that an earlier
/// member has its local name.
pub open spec fn reference_diagnostics(
    id: Seq<char>,
    defs: Seq<(Seq<char>, LexiconDataView)>,
    definition: Seq<char>,
    refs: Seq<Seq<char>>,
) -> Seq<DiagnosticView>
    decreases refs.len(),
{
    if refs.len() == 0 {
        Seq::empty()
    } else {
        let front = reference_diagnostics(id, defs, definition, refs.drop_last());
        let checked = if resolves(id, defs, refs.last()) {
            front
        } else {
            front.push(
                DiagnosticView::UnresolvedReference { definition, reference: refs.last() },
            )
        };
        if names_variant(refs.drop_last(), local_name(refs.last())) {
            checked.push(
                DiagnosticView::DuplicateVariant { definition, variant: local_name(refs.last()) },
            )
        } else {
            checked
        }
    }
}

/// The diagnostics for a union: that it has no member, or those of its
/// members.
pub open spec fn union_diagnostics(
    id: Seq<char>,
    defs: Seq<(Seq<char>, LexiconDataView)>,
    definition: Seq<char>,
    refs: Seq<Seq<char>>,
) -> Seq<DiagnosticView> {
    if refs.len() == 0 {
        seq![DiagnosticView::EmptyUnion { definition }]
    } else {
        reference_diagnostics(id, defs, definition, refs)
    }
}

/// The diagnostics for an object: for its required names, for its nullable
/// names, and for its properties.
pub open spec fn object_diagnostics(definition: Seq<char>, obj: ObjectTypeView) -> Seq<
    DiagnosticView,
> {
    name_diagnostics(definition, obj.required, obj.properties, false) + name_diagnostics(
        definition,
        obj.nullable,
        obj.properties,
        true,
    ) + field_diagnostics(definition, obj.properties)
}

/// The diagnostics for the objects that stand in `node`, a property
/// `propname` of the record `defname`, and in the properties of those
/// objects: those of each object under the name of its type, an object
/// before those that stand in it.
pub open spec fn nested_diagnostics_of_node(
    defname: Seq<char>,
    propname: Seq<char>,
    node: LexiconDataView,
) -> Seq<DiagnosticView>
    decreases node, 0nat,
{
    match node.data {
        LexiconDataTypeView::Object(o) => {
            let name = nested_type_name(defname, propname);
            object_diagnostics(name, o) + nested_diagnostics_in(
                name,
                o.properties,
                o.properties.len(),
            )
        },
        LexiconDataTypeView::Array(a) => nested_diagnostics_of_node(defname, propname, *a.items),
        _ => Seq::empty(),
    }
}

/// The diagnostics for the objects that stand in the first `n` properties of
/// the record `defname`.
pub open spec fn nested_diagnostics_in(
    defname: Seq<char>,
    properties: Seq<(Seq<char>, LexiconDataView)>,
    n: nat,
) -> Seq<DiagnosticView>
    decreases properties, n,
{
    if n == 0 || n > properties.len() {
        Seq::empty()
    } else {
        nested_diagnostics_in(defname, properties, (n - 1) as nat) + nested_diagnostics_of_node(
            defname,
            properties[n - 1].0,
            properties[n - 1].1,
        )
    }
}

/// The diagnostics for those of the first `n` declarations whose name an
/// earlier one has.
pub open spec fn repeated_type_diagnostics(
    definition: Seq<char>,
    all: Seq<(Seq<char>, Seq<char>)>,
    n: nat,
) -> Seq<DiagnosticView>
    decreases n,
{
    if n == 0 || n > all.len() {
        Seq::empty()
    } else {
        let front = repeated_type_diagnostics(definition, all, (n - 1) as nat);
        if is_declared(all.take(n - 1), all[n - 1].0) {
            front.push(DiagnosticView::DuplicateNestedType { definition, name: all[n - 1].0 })
        } else {
            front
        }
    }
}

/// The diagnostics for a definition that is an object: those of the object,
/// those of the objects that stand in its properties, and those for the
/// names that the types of two such objects share.
pub open spec fn record_diagnostics(definition: Seq<char>, obj: ObjectTypeView) -> Seq<
    DiagnosticView,
> {
    object_diagnostics(definition, obj) + nested_diagnostics_in(
        definition,
        obj.properties,
        obj.properties.len(),
    ) + repeated_type_diagnostics(
        definition,
        nested_of_properties(definition, obj.properties, obj.properties.len()),
        nested_of_properties(definition, obj.properties, obj.properties.len()).len(),
    )
}

/// The diagnostics for one definition of the document `id`, whose
/// definitions are `defs`.
pub open spec fn definition_diagnostics(
    id: Seq<char>,
    defs: Seq<(Seq<char>, LexiconDataView)>,
    definition: Seq<char>,
    def: LexiconDataView,
) -> Seq<DiagnosticView> {
    match def.data {
        LexiconDataTypeView::Object(o) => record_diagnostics(definition, o),
        LexiconDataTypeView::Union(u) => union_diagnostics(id, defs, definition, u.refs),
        _ => seq![
            DiagnosticView::UnsupportedDefinition { definition, kind: kind_name(def.data) },
        ],
    }
}

/// The diagnostics for the given definitions of a document, in their order.
pub open spec fn diagnostics_of(
    id: Seq<char>,
    defs: Seq<(Seq<char>, LexiconDataView)>,
    checked: Seq<(Seq<char>, LexiconDataView)>,
) -> Seq<DiagnosticView>
    decreases checked.len(),
{
    if checked.len() == 0 {
        Seq::empty()
    } else {
        diagnostics_of(id, defs, checked.drop_last()) + definition_diagnostics(
            id,
            defs,
            checked.last().0,
            checked.last().1,
        )
    }
}

/// The diagnostics for a document: those of its definitions, in the order of
/// the document.
pub open spec fn file_diagnostics(lex: LexiconFileView) -> Seq<DiagnosticView> {
    diagnostics_of(lex.id, lex.defs, lex.defs)
}

/// Whether a node has a type of its own as a field.
pub fn field_is_mapped(node: &LexiconData) -> (mapped: bool)
    ensures
        mapped == has_field_mapping(node@),
    decreases node,
{
    match &node.data {
        LexiconDataType::String(_) => true,
        LexiconDataType::Integer(_) => true,
        LexiconDataType::Boolean(_) => true,
        LexiconDataType::Bytes(_) => true,
        LexiconDataType::CidLink => true,
        LexiconDataType::Ref(_) => true,
        LexiconDataType::Object(_) => true,
        LexiconDataType::Array(a) => field_is_mapped(&*a.items),
        _ => false,
    }
}

/// Whether a reference in the document `id`, whose definitions are `defs`,
/// is not at fault.
pub fn reference_resolves(id: &str, defs: &NodeMap, reference: &str) -> (found: bool)
    ensures
        found == resolves(id@, defs@, reference@),
{
    let owner = reference_owner(reference);
    if !owner.as_str().is_empty() && !same_text(owner.as_str(), id) {
        true
    } else {
        let name = reference_tail(reference);
        defs.contains_key(name.as_str())
    }
}

fn check_names(
    definition: &str,
    names: &Vec<String>,
    properties: &NodeMap,
    nullable: bool,
    out: &mut Vec<Diagnostic>,
)
    ensures
        diagnostics_view(final(out)@) == diagnostics_view(old(out)@) + name_diagnostics(
            definition@,
            names.deep_view(),
            properties@,
            nullable,
        ),
{
    let ghost start = diagnostics_view(out@);
    let mut i: usize = 0;
    proof {
        assert(names.deep_view().take(0) =~= Seq::<Seq<char>>::empty());
    }
    while i < names.len()
        invariant
            0 <= i <= names.len(),
            diagnostics_view(out@) == start + name_diagnostics(
                definition@,
                names.deep_view().take(i as int),
                properties@,
                nullable,
            ),
        decreases names.len() - i,
    {
        proof {
            assert(names.deep_view().take(i + 1).drop_last() =~= names.deep_view().take(i as int));
            assert(names.deep_view().take(i + 1).last() == names@[i as int]@);
        }
        if !properties.contains_key(names[i].as_str()) {
            let ghost before = out@;
            let d = if nullable {
                Diagnostic::UnknownNullable {
                    definition: definition.to_owned(),
                    name: names[i].clone(),
                }
            } else {
                Diagnostic::UnknownRequired {
                    definition: definition.to_owned(),
                    name: names[i].clone(),
                }
            };
            let ghost view = d@;
            out.push(d);
            proof {
                assert(diagnostics_view(out@) =~= diagnostics_view(before).push(view));
            }
        }
        i += 1;
    }
    proof {
        assert(names.deep_view().take(names@.len() as int) =~= names.deep_view());
    }
}

fn check_fields(definition: &str, properties: &NodeMap, out: &mut Vec<Diagnostic>)
    ensures
        diagnostics_view(final(out)@) == diagnostics_view(old(out)@) + field_diagnostics(
            definition@,
            properties@,
        ),
{
    let ghost start = diagnostics_view(out@);
    let entries = properties.entries();
    let mut i: usize = 0;
    proof {
        assert(properties@.take(0) =~= Seq::<(Seq<char>, LexiconDataView)>::empty());
    }
    while i < entries.len()
        invariant
            0 <= i <= entries.len(),
            entries@.len() == properties@.len(),
            forall|j: int|
                0 <= j < entries@.len() ==> (#[trigger] entries@[j]).0@ == properties@[j].0
                    && entries@[j].1@ == properties@[j].1,
            diagnostics_view(out@) == start + field_diagnostics(
                definition@,
                properties@.take(i as int),
            ),
        decreases entries.len() - i,
    {
        proof {
            assert(properties@.take(i + 1).drop_last() =~= properties@.take(i as int));
        }
        let (name, node) = entries[i];
        if !field_is_mapped(node) {
            let ghost before = out@;
            let d = Diagnostic::UnsupportedField {
                definition: definition.to_owned(),
                property: name.clone(),
            };
            let ghost view = d@;
            out.push(d);
            proof {
                assert(diagnostics_view(out@) =~= diagnostics_view(before).push(view));
            }
        }
        i += 1;
    }
    proof {
        assert(properties@.take(properties@.len() as int) =~= properties@);
    }
}

/// Whether one of the first `count` references resolves to the local name
/// `variant`.
fn variant_is_named(refs: &Vec<String>, count: usize, variant: &str) -> (found: bool)
    requires
        count <= refs.len(),
    ensures
        found == names_variant(refs.deep_view().take(count as int), variant@),
{
    let ghost earlier = refs.deep_view().take(count as int);
    let mut i: usize = 0;
    while i < count
        invariant
            0 <= i <= count <= refs.len(),
            earlier == refs.deep_view().take(count as int),
            forall|j: int| 0 <= j < i ==> local_name(#[trigger] earlier[j]) != variant@,
        decreases count - i,
    {
        let name = reference_tail(refs[i].as_str());
        assert(earlier[i as int] == refs@[i as int]@);
        if same_text(name.as_str(), variant) {
            return true;
        }
        i += 1;
    }
    false
}

fn check_references(
    id: &str,
    defs: &NodeMap,
    definition: &str,
    refs: &Vec<String>,
    out: &mut Vec<Diagnostic>,
)
    ensures
        diagnostics_view(final(out)@) == diagnostics_view(old(out)@) + reference_diagnostics(
            id@,
            defs@,
            definition@,
            refs.deep_view(),
        ),
{
    let ghost start = diagnostics_view(out@);
    let mut i: usize = 0;
    proof {
        assert(refs.deep_view().take(0) =~= Seq::<Seq<char>>::empty());
    }
    while i < refs.len()
        invariant
            0 <= i <= refs.len(),
            diagnostics_view(out@) == start + reference_diagnostics(
                id@,
                defs@,
                definition@,
                refs.deep_view().take(i as int),
            ),
        decreases refs.len() - i,
    {
        proof {
            assert(refs.deep_view().take(i + 1).drop_last() =~= refs.deep_view().take(i as int));
            assert(refs.deep_view().take(i + 1).last() == refs@[i as int]@);
        }
        if !reference_resolves(id, defs, refs[i].as_str()) {
            let ghost before = out@;
            let d = Diagnostic::UnresolvedReference {
                definition: definition.to_owned(),
                reference: refs[i].clone(),
            };
            let ghost view = d@;
            out.push(d);
            proof {
                assert(diagnostics_view(out@) =~= diagnostics_view(before).push(view));
            }
        }
        let variant = reference_tail(refs[i].as_str());
        if variant_is_named(refs, i, variant.as_str()) {
            let ghost before = out@;
            let d = Diagnostic::DuplicateVariant { definition: definition.to_owned(), variant };
            let ghost view = d@;
            out.push(d);
            proof {
                assert(diagnostics_view(out@) =~= diagnostics_view(before).push(view));
            }
        }
        i += 1;
    }
    proof {
        assert(refs.deep_view().take(refs@.len() as int) =~= refs.deep_view());
    }
}

fn check_object(definition: &str, obj: &ObjectType, out: &mut Vec<Diagnostic>)
    ensures
        diagnostics_view(final(out)@) == diagnostics_view(old(out)@) + object_diagnostics(
            definition@,
            obj@,
        ),
{
    check_names(definition, &obj.required, &obj.properties, false, out);
    check_names(definition, &obj.nullable, &obj.properties, true, out);
    check_fields(definition, &obj.properties, out);
}

fn check_nested(defname: &str, propname: &str, node: &LexiconData, out: &mut Vec<Diagnostic>)
    ensures
        diagnostics_view(final(out)@) == diagnostics_view(old(out)@) + nested_diagnostics_of_node(
            defname@,
            propname@,
            node@,
        ),
    decreases node@, 0nat,
{
    match &node.data {
        LexiconDataType::Object(o) => {
            let name = synthesized_type_name(defname, propname);
            check_object(name.as_str(), o, out);
            check_nested_in(name.as_str(), &o.properties, out);
        },
        LexiconDataType::Array(a) => {
            proof {
                let v = node@;
                let av = v.data->Array_0;
                assert(v.data == LexiconDataTypeView::Array(a@));
                assert(*av.items == (*a.items)@);
                assert(decreases_to!(v => v.data));
                assert(decreases_to!(v.data => av));
                assert(decreases_to!(av => *av.items));
            }
            check_nested(defname, propname, &*a.items, out);
        },
        _ => {
            assert(diagnostics_view(out@) + Seq::<DiagnosticView>::empty() =~= diagnostics_view(
                out@,
            ));
        },
    }
}

fn check_nested_in(defname: &str, properties: &NodeMap, out: &mut Vec<Diagnostic>)
    ensures
        diagnostics_view(final(out)@) == diagnostics_view(old(out)@) + nested_diagnostics_in(
            defname@,
            properties@,
            properties@.len(),
        ),
    decreases properties@, properties@.len(),
{
    let ghost start = diagnostics_view(out@);
    let entries = properties.entries();
    let mut i: usize = 0;
    proof {
        assert(start + Seq::<DiagnosticView>::empty() =~= start);
    }
    while i < entries.len()
        invariant
            0 <= i <= entries.len(),
            entries@.len() == properties@.len(),
            forall|j: int|
                0 <= j < entries@.len() ==> (#[trigger] entries@[j]).0@ == properties@[j].0
                    && entries@[j].1@ == properties@[j].1,
            diagnostics_view(out@) == start + nested_diagnostics_in(
                defname@,
                properties@,
                i as nat,
            ),
        decreases entries.len() - i,
    {
        let (name, node) = entries[i];
        proof {
            assert(decreases_to!(properties@ => properties@[i as int]));
        }
        check_nested(defname, name.as_str(), node, out);
        i += 1;
    }
}

/// Whether one of the first `count` declarations has the name `name`.
fn is_declared_before(all: &Vec<(String, String)>, count: usize, name: &str) -> (found: bool)
    requires
        count <= all.len(),
    ensures
        found == is_declared(all.deep_view().take(count as int), name@),
{
    let ghost earlier = all.deep_view().take(count as int);
    let mut i: usize = 0;
    while i < count
        invariant
            0 <= i <= count <= all.len(),
            earlier == all.deep_view().take(count as int),
            forall|j: int| 0 <= j < i ==> (#[trigger] earlier[j]).0 != name@,
        decreases count - i,
    {
        assert(earlier[i as int].0 == all@[i as int].0@);
        if same_text(all[i].0.as_str(), name) {
            return true;
        }
        i += 1;
    }
    false
}

fn check_repeated_types(definition: &str, all: &Vec<(String, String)>, out: &mut Vec<Diagnostic>)
    ensures
        diagnostics_view(final(out)@) == diagnostics_view(old(out)@) + repeated_type_diagnostics(
            definition@,
            all.deep_view(),
            all.deep_view().len(),
        ),
{
    let ghost start = diagnostics_view(out@);
    let mut i: usize = 0;
    proof {
        assert(start + Seq::<DiagnosticView>::empty() =~= start);
    }
    while i < all.len()
        invariant
            0 <= i <= all.len(),
            diagnostics_view(out@) == start + repeated_type_diagnostics(
                definition@,
                all.deep_view(),
                i as nat,
            ),
        decreases all.len() - i,
    {
        assert(all.deep_view()[i as int].0 == all@[i as int].0@);
        if is_declared_before(all, i, all[i].0.as_str()) {
            let ghost before = out@;
            let d = Diagnostic::DuplicateNestedType {
                definition: definition.to_owned(),
                name: all[i].0.clone(),
            };
            let ghost view = d@;
            out.push(d);
            proof {
                assert(diagnostics_view(out@) =~= diagnostics_view(before).push(view));
            }
        }
        i += 1;
    }
}

fn check_definition(
    id: &str,
    defs: &NodeMap,
    definition: &str,
    def: &LexiconData,
    out: &mut Vec<Diagnostic>,
)
    ensures
        diagnostics_view(final(out)@) == diagnostics_view(old(out)@) + definition_diagnostics(
            id@,
            defs@,
            definition@,
            def@,
        ),
{
    match &def.data {
        LexiconDataType::Object(o) => {
            check_object(definition, o, out);
            check_nested_in(definition, &o.properties, out);
            let mut all: Vec<(String, String)> = Vec::new();
            proof {
                assert(all.deep_view() =~= Seq::<(Seq<char>, Seq<char>)>::empty());
            }
            collect_nested_in(definition, &o.properties, &mut all);
            proof {
                assert(all.deep_view() =~= nested_of_properties(
                    definition@,
                    o.properties@,
                    o.properties@.len(),
                ));
            }
            check_repeated_types(definition, &all, out);
        },
        LexiconDataType::Union(u) => {
            if u.refs.len() == 0 {
                let ghost before = out@;
                let d = Diagnostic::EmptyUnion { definition: definition.to_owned() };
                let ghost view = d@;
                out.push(d);
                proof {
                    assert(diagnostics_view(out@) =~= diagnostics_view(before).push(view));
                    assert(diagnostics_view(before).push(view) =~= diagnostics_view(before)
                        + seq![view]);
                }
            } else {
                check_references(id, defs, definition, &u.refs, out);
            }
        },
        other => {
            let ghost before = out@;
            let d = Diagnostic::UnsupportedDefinition {
                definition: definition.to_owned(),
                kind: other.kind().to_owned(),
            };
            let ghost view = d@;
            out.push(d);
            proof {
                assert(diagnostics_view(out@) =~= diagnostics_view(before).push(view));
                assert(diagnostics_view(before).push(view) =~= diagnostics_view(before) + seq![
                    view,
                ]);
            }
        },
    }
}

/// The diagnostics for one definition of a document.
pub fn diagnose_def(lex: &LexiconFile, definition: &str, def: &LexiconData) -> (found: Vec<
    Diagnostic,
>)
    ensures
        diagnostics_view(found@) == definition_diagnostics(lex@.id, lex@.defs, definition@, def@),
{
    let mut found: Vec<Diagnostic> = Vec::new();
    check_definition(lex.id.as_str(), &lex.defs, definition, def, &mut found);
    found
}

/// The diagnostics for a document: those of every definition, in the order
/// of the document.
pub fn diagnose(lex: &LexiconFile) -> (found: Vec<Diagnostic>)
    ensures
        diagnostics_view(found@) == file_diagnostics(lex@),
{
    let entries = lex.defs.entries();
    let mut found: Vec<Diagnostic> = Vec::new();
    let mut i: usize = 0;
    proof {
        assert(lex.defs@.take(0) =~= Seq::<(Seq<char>, LexiconDataView)>::empty());
    }
    while i < entries.len()
        invariant
            0 <= i <= entries.len(),
            entries@.len() == lex.defs@.len(),
            forall|j: int|
                0 <= j < entries@.len() ==> (#[trigger] entries@[j]).0@ == lex.defs@[j].0
                    && entries@[j].1@ == lex.defs@[j].1,
            diagnostics_view(found@) == diagnostics_of(
                lex.id@,
                lex.defs@,
                lex.defs@.take(i as int),
            ),
        decreases entries.len() - i,
    {
        proof {
            assert(lex.defs@.take(i + 1).drop_last() =~= lex.defs@.take(i as int));
        }
        let (name, def) = entries[i];
        check_definition(lex.id.as_str(), &lex.defs, name.as_str(), def, &mut found);
        i += 1;
    }
    proof {
        assert(lex.defs@.take(lex.defs@.len() as int) =~= lex.defs@);
    }
    found
}

/// Every listed name without a diagnostic is a property.
pub proof fn lemma_names_without_diagnostics(
    definition: Seq<char>,
    names: Seq<Seq<char>>,
    properties: Seq<(Seq<char>, LexiconDataView)>,
    nullable: bool,
)
    requires
        name_diagnostics(definition, names, properties, nullable).len() == 0,
    ensures
        forall|i: int| 0 <= i < names.len() ==> has_key(properties, #[trigger] names[i]),
    decreases names.len(),
{
    if names.len() > 0 {
        lemma_names_without_diagnostics(definition, names.drop_last(), properties, nullable);
        assert forall|i: int| 0 <= i < names.len() implies has_key(
            properties,
            #[trigger] names[i],
        ) by {
            if i < names.len() - 1 {
                assert(names.drop_last()[i] == names[i]);
            }
        }
    }
}

/// Every property without a diagnostic has a type of its own as a field.
pub proof fn lemma_fields_without_diagnostics(
    definition: Seq<char>,
    properties: Seq<(Seq<char>, LexiconDataView)>,
)
    requires
        field_diagnostics(definition, properties).len() == 0,
    ensures
        forall|i: int|
            0 <= i < properties.len() ==> has_field_mapping((#[trigger] properties[i]).1),
    decreases properties.len(),
{
    if properties.len() > 0 {
        lemma_fields_without_diagnostics(definition, properties.drop_last());
        assert forall|i: int| 0 <= i < properties.len() implies has_field_mapping(
            (#[trigger] properties[i]).1,
        ) by {
            if i < properties.len() - 1 {
                assert(properties.drop_last()[i] == properties[i]);
            }
        }
    }
}

/// Every member of a union without a diagnostic resolves, and no two
/// members have one local name.
pub proof fn lemma_references_without_diagnostics(
    id: Seq<char>,
    defs: Seq<(Seq<char>, LexiconDataView)>,
    definition: Seq<char>,
    refs: Seq<Seq<char>>,
)
    requires
        reference_diagnostics(id, defs, definition, refs).len() == 0,
    ensures
        forall|i: int| 0 <= i < refs.len() ==> resolves(id, defs, #[trigger] refs[i]),
        forall|i: int, j: int|
            0 <= i < j < refs.len() ==> local_name(#[trigger] refs[i]) != local_name(
                #[trigger] refs[j],
            ),
    decreases refs.len(),
{
    if refs.len() > 0 {
        let front = refs.drop_last();
        lemma_references_without_diagnostics(id, defs, definition, front);
        assert forall|i: int| 0 <= i < refs.len() implies resolves(id, defs, #[trigger] refs[i]) by {
            if i < refs.len() - 1 {
                assert(front[i] == refs[i]);
            }
        }
        assert forall|i: int, j: int| 0 <= i < j < refs.len() implies local_name(
            #[trigger] refs[i],
        ) != local_name(#[trigger] refs[j]) by {
            assert(front[i] == refs[i]);
            if j < refs.len() - 1 {
                assert(front[j] == refs[j]);
            } else {
                assert(!names_variant(front, local_name(refs.last())));
                assert(local_name(front[i]) != local_name(refs.last()));
            }
        }
    }
}

/// Where no diagnostic is given for a repeated name, no two of the
/// declarations have one name.
pub proof fn lemma_types_without_diagnostics(
    definition: Seq<char>,
    all: Seq<(Seq<char>, Seq<char>)>,
    n: nat,
)
    requires
        n <= all.len(),
        repeated_type_diagnostics(definition, all, n).len() == 0,
    ensures
        forall|i: int, j: int| 0 <= i < j < n ==> (#[trigger] all[i]).0 != (#[trigger] all[j]).0,
    decreases n,
{
    if n > 0 {
        lemma_types_without_diagnostics(definition, all, (n - 1) as nat);
        assert forall|i: int, j: int| 0 <= i < j < n implies (#[trigger] all[i]).0 != (
        #[trigger] all[j]).0 by {
            if j == n - 1 {
                assert(!is_declared(all.take(n - 1), all[n - 1].0));
                assert(all.take(n - 1)[i] == all[i]);
            }
        }
    }
}

/// A definition without a diagnostic is an object or a union. The names
/// that the object lists are properties of it, each of its properties has a
/// type of its own as a field, the objects that stand in its properties have
/// no diagnostic either, and no two of them get one name for their types.
/// The union has members, they resolve, and no two of them have one local
/// name.
pub proof fn lemma_definition_without_diagnostics(
    id: Seq<char>,
    defs: Seq<(Seq<char>, LexiconDataView)>,
    definition: Seq<char>,
    def: LexiconDataView,
)
    requires
        definition_diagnostics(id, defs, definition, def).len() == 0,
    ensures
        match def.data {
            LexiconDataTypeView::Object(o) => {
                &&& forall|i: int|
                    0 <= i < o.required.len() ==> has_key(o.properties, #[trigger] o.required[i])
                &&& forall|i: int|
                    0 <= i < o.nullable.len() ==> has_key(o.properties, #[trigger] o.nullable[i])
                &&& forall|i: int|
                    0 <= i < o.properties.len() ==> has_field_mapping(
                        (#[trigger] o.properties[i]).1,
                    )
                &&& nested_diagnostics_in(definition, o.properties, o.properties.len()).len()
                    == 0
                &&& forall|i: int, j: int|
                    0 <= i < j < nested_of_properties(
                        definition,
                        o.properties,
                        o.properties.len(),
                    ).len() ==> (#[trigger] nested_of_properties(
                        definition,
                        o.properties,
                        o.properties.len(),
                    )[i]).0 != (#[trigger] nested_of_properties(
                        definition,
                        o.properties,
                        o.properties.len(),
                    )[j]).0
            },
            LexiconDataTypeView::Union(u) => {
                &&& u.refs.len() > 0
                &&& forall|i: int|
                    0 <= i < u.refs.len() ==> resolves(id, defs, #[trigger] u.refs[i])
                &&& forall|i: int, j: int|
                    0 <= i < j < u.refs.len() ==> local_name(#[trigger] u.refs[i]) != local_name(
                        #[trigger] u.refs[j],
                    )
            },
            _ => false,
        },
{
    match def.data {
        LexiconDataTypeView::Object(o) => {
            let all = nested_of_properties(definition, o.properties, o.properties.len());
            lemma_names_without_diagnostics(definition, o.required, o.properties, false);
            lemma_names_without_diagnostics(definition, o.nullable, o.properties, true);
            lemma_fields_without_diagnostics(definition, o.properties);
            lemma_types_without_diagnostics(definition, all, all.len());
        },
        LexiconDataTypeView::Union(u) => {
            lemma_references_without_diagnostics(id, defs, definition, u.refs);
        },
        _ => {},
    }
}

/// A node without a type of its own as a field is carried as text, unless it
/// is a list, which is carried as a list of what its items are carried as.
pub proof fn lemma_unmapped_field_is_text(
    defname: Seq<char>,
    propname: Seq<char>,
    node: LexiconDataView,
)
    requires
        !has_field_mapping(node),
        !(node.data is Array),
    ensures
        field_type_text(defname, propname, node) == "String"@,
{
}

} // verus!
