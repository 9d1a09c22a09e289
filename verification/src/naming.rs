//! Names in the generated code: the local name of a reference, the
//! identifier of a field, the annotation that keeps the name a field has on
//! the wire, and the name of a type synthesized for a nested object.

use vstd::prelude::*;
use crate::text::{alphabetic, is_alphabetic_char, uppercase, uppercase_of};

verus! {

/// The position just past the last `#` of `reference`, or 0 when it holds
/// none.
pub open spec fn tail_start(reference: Seq<char>) -> int
    decreases reference.len(),
{
    if reference.len() == 0 {
        0
    } else if reference.last() == '#' {
        reference.len() as int
    } else {
        tail_start(reference.drop_last())
    }
}

/// The local name that a reference resolves to: what follows its last `#`,
/// or all of it when it holds no `#`.
pub open spec fn local_name(reference: Seq<char>) -> Seq<char> {
    reference.skip(tail_start(reference))
}

/// `tail_start` is the position that its name promises: within the reference,
/// just past a `#` unless it is 0, and with no `#` at or after it.
pub proof fn lemma_tail_start(reference: Seq<char>)
    ensures
        0 <= tail_start(reference) <= reference.len(),
        tail_start(reference) > 0 ==> reference[tail_start(reference) - 1] == '#',
        forall|j: int| tail_start(reference) <= j < reference.len() ==> reference[j] != '#',
    decreases reference.len(),
{
    if reference.len() > 0 && reference.last() != '#' {
        let front = reference.drop_last();
        lemma_tail_start(front);
        assert forall|j: int| tail_start(reference) <= j < reference.len() implies reference[j]
            != '#' by {
            if j < front.len() {
                assert(front[j] == reference[j]);
            }
        }
    }
}

/// A reference without any `#` is its own local name.
pub proof fn lemma_local_name_without_hash(reference: Seq<char>)
    requires
        forall|j: int| 0 <= j < reference.len() ==> reference[j] != '#',
    ensures
        tail_start(reference) == 0,
        local_name(reference) == reference,
    decreases reference.len(),
{
    if reference.len() > 0 {
        lemma_local_name_without_hash(reference.drop_last());
    }
    assert(reference.skip(0) =~= reference);
}

/// A local name holds no `#`.
pub proof fn lemma_local_name_has_no_hash(reference: Seq<char>)
    ensures
        forall|j: int| 0 <= j < local_name(reference).len() ==> local_name(reference)[j] != '#',
{
    lemma_tail_start(reference);
}

/// Resolving is idempotent: a local name resolves to itself.
pub proof fn lemma_local_name_idempotent(reference: Seq<char>)
    ensures
        local_name(local_name(reference)) == local_name(reference),
{
    lemma_local_name_has_no_hash(reference);
    lemma_local_name_without_hash(local_name(reference));
}

/// How the local name grows with the reference: a `#` starts it afresh, any
/// other character extends it.
pub proof fn lemma_local_name_push(prefix: Seq<char>, c: char)
    ensures
        local_name(prefix.push(c)) == if c == '#' {
            Seq::<char>::empty()
        } else {
            local_name(prefix).push(c)
        },
{
    let whole = prefix.push(c);
    assert(whole.drop_last() =~= prefix);
    lemma_tail_start(prefix);
    if c == '#' {
        assert(whole.skip(whole.len() as int) =~= Seq::<char>::empty());
    } else {
        assert(whole.skip(tail_start(prefix)) =~= prefix.skip(tail_start(prefix)).push(c));
    }
}

/// The identifier of the document that a reference points into: what stands
/// before its last `#`. It is empty for a reference without a `#`, which
/// points into the document that holds it.
pub open spec fn definition_id(reference: Seq<char>) -> Seq<char> {
    if tail_start(reference) == 0 {
        Seq::empty()
    } else {
        reference.take(tail_start(reference) - 1)
    }
}

/// A reference is its document identifier, a `#` and its local name, or the
/// local name alone.
pub proof fn lemma_reference_parts(reference: Seq<char>)
    ensures
        reference == if tail_start(reference) == 0 {
            local_name(reference)
        } else {
            definition_id(reference).push('#') + local_name(reference)
        },
{
    lemma_tail_start(reference);
    if tail_start(reference) == 0 {
        assert(reference.skip(0) =~= reference);
    } else {
        let k = tail_start(reference);
        assert(reference =~= reference.take(k - 1).push('#') + reference.skip(k));
    }
}

/// How the document identifier grows with the reference: at a `#` it is all
/// that came before, and any other character leaves it as it is.
pub proof fn lemma_definition_id_push(prefix: Seq<char>, c: char)
    ensures
        definition_id(prefix.push(c)) == if c == '#' {
            prefix
        } else {
            definition_id(prefix)
        },
{
    let whole = prefix.push(c);
    assert(whole.drop_last() =~= prefix);
    lemma_tail_start(prefix);
    if c == '#' {
        assert(whole.take(whole.len() - 1) =~= prefix);
    } else if tail_start(prefix) > 0 {
        assert(whole.take(tail_start(prefix) - 1) =~= prefix.take(tail_start(prefix) - 1));
    }
}

/// The identifier of the document that a reference points into.
pub fn reference_owner(reference: &str) -> (owner: String)
    ensures
        owner@ == definition_id(reference@),
{
    let mut owner = String::new();
    let mut seen = String::new();
    proof {
        assert(reference@.take(0) =~= Seq::<char>::empty());
    }
    for c in it: reference.chars()
        invariant
            it.seq() == reference@,
            seen@ == reference@.take(it.index()),
            owner@ == definition_id(reference@.take(it.index())),
    {
        proof {
            let i = it.index();
            assert(reference@.take(i + 1) =~= reference@.take(i).push(c));
            lemma_definition_id_push(reference@.take(i), c);
        }
        if c == '#' {
            owner = seen.clone();
        }
        seen.push(c);
    }
    proof {
        assert(reference@.take(reference@.len() as int) =~= reference@);
    }
    owner
}

/// Resolves a reference to its local name.
pub fn reference_tail(reference: &str) -> (tail: String)
    ensures
        tail@ == local_name(reference@),
{
    let mut tail = String::new();
    proof {
        assert(reference@.take(0) =~= Seq::<char>::empty());
        assert(Seq::<char>::empty().skip(0) =~= Seq::<char>::empty());
    }
    for c in it: reference.chars()
        invariant
            it.seq() == reference@,
            tail@ == local_name(reference@.take(it.index())),
    {
        proof {
            let i = it.index();
            assert(reference@.take(i + 1) =~= reference@.take(i).push(c));
            lemma_local_name_push(reference@.take(i), c);
        }
        if c == '#' {
            tail = String::new();
        } else {
            tail.push(c);
        }
    }
    proof {
        assert(reference@.take(reference@.len() as int) =~= reference@);
    }
    tail
}

/// Whether a character is a decimal digit of ASCII.
pub open spec fn is_digit(c: char) -> bool {
    '0' <= c <= '9'
}

/// Whether a character belongs to ASCII.
pub open spec fn is_ascii_char(c: char) -> bool {
    c <= '\u{7f}'
}

/// Whether a character can stand in an identifier, at its start where
/// `first` holds and after its start where not, given whether it is
/// alphabetic. A letter of ASCII and `_` can stand anywhere, a digit of ASCII
/// anywhere but at the start, and a character beyond ASCII wherever it is
/// alphabetic. No other character can stand in an identifier.
pub open spec fn legal_given(c: char, first: bool, alphabetic: bool) -> bool {
    if is_ascii_char(c) {
        ('a' <= c <= 'z') || ('A' <= c <= 'Z') || c == '_' || (is_digit(c) && !first)
    } else {
        alphabetic
    }
}

/// Whether a character can stand nowhere in an identifier.
pub open spec fn is_illegal(c: char) -> bool {
    !legal_given(c, false, is_alphabetic_char(c))
}

/// Whether the character at the place `i` of a schema name cannot stand at
/// that place of an identifier: it is illegal, or it is a digit at the
/// start.
pub open spec fn is_illegal_at(name: Seq<char>, i: int) -> bool {
    is_illegal(name[i]) || (i == 0 && is_digit(name[i]))
}

/// The character that stands at the place `i` of the identifier of a schema
/// name.
pub open spec fn sanitized_at(name: Seq<char>, i: int) -> char {
    if is_illegal_at(name, i) {
        '_'
    } else {
        name[i]
    }
}

/// The identifier of a schema name: every character that cannot stand at
/// its place replaced by `_`, every other kept.
pub open spec fn sanitized(name: Seq<char>) -> Seq<char> {
    Seq::new(name.len(), |i: int| sanitized_at(name, i))
}

/// Whether a schema name holds a character that its identifier cannot keep.
pub open spec fn needs_rename(name: Seq<char>) -> bool {
    exists|i: int| 0 <= i < name.len() && #[trigger] is_illegal_at(name, i)
}

/// The annotation that carries the wire name of a field whose identifier
/// differs from it; empty for a field whose identifier is its wire name.
pub open spec fn rename_annotation(name: Seq<char>) -> Seq<char> {
    if needs_rename(name) {
        "    #[serde(rename = \""@ + name + "\")]\n"@
    } else {
        Seq::empty()
    }
}

/// A name needs a rename as soon as a prefix of it does, or the next
/// character cannot stand at its place.
pub proof fn lemma_needs_rename_push(prefix: Seq<char>, c: char)
    ensures
        needs_rename(prefix.push(c)) == (needs_rename(prefix) || is_illegal(c) || (prefix.len()
            == 0 && is_digit(c))),
{
    let whole = prefix.push(c);
    if needs_rename(prefix) {
        let i = choose|i: int| 0 <= i < prefix.len() && #[trigger] is_illegal_at(prefix, i);
        assert(whole[i] == prefix[i]);
        assert(is_illegal_at(whole, i));
    }
    if is_illegal(c) || (prefix.len() == 0 && is_digit(c)) {
        assert(whole[prefix.len() as int] == c);
        assert(is_illegal_at(whole, prefix.len() as int));
    }
    if needs_rename(whole) {
        let i = choose|i: int| 0 <= i < whole.len() && #[trigger] is_illegal_at(whole, i);
        if i < prefix.len() {
            assert(whole[i] == prefix[i]);
            assert(is_illegal_at(prefix, i));
        }
    }
}

/// Sanitizing changes a name exactly when the name needs a rename.
pub proof fn lemma_sanitized_changes_iff(name: Seq<char>)
    ensures
        (sanitized(name) == name) <==> !needs_rename(name),
{
    if needs_rename(name) {
        let i = choose|i: int| 0 <= i < name.len() && #[trigger] is_illegal_at(name, i);
        assert(sanitized(name)[i] == '_');
        assert(name[i] != '_');
    } else {
        assert forall|i: int| 0 <= i < name.len() implies sanitized(name)[i] == name[i] by {
            assert(!is_illegal_at(name, i));
        }
        assert(sanitized(name) =~= name);
    }
}

/// An identifier is as long as its name, and every character of it can
/// stand at its place.
pub proof fn lemma_sanitized_is_legal(name: Seq<char>)
    ensures
        sanitized(name).len() == name.len(),
        forall|i: int| 0 <= i < name.len() ==> !is_illegal(#[trigger] sanitized(name)[i]),
        name.len() > 0 ==> !is_digit(sanitized(name)[0]),
        !needs_rename(sanitized(name)),
{
    assert forall|i: int| 0 <= i < name.len() implies !is_illegal_at(sanitized(name), i) by {
        assert(sanitized(name)[i] == sanitized_at(name, i));
    }
    assert forall|i: int| 0 <= i < name.len() implies !is_illegal(
        #[trigger] sanitized(name)[i],
    ) by {
        assert(!is_illegal_at(sanitized(name), i));
    }
    if name.len() > 0 {
        assert(!is_illegal_at(sanitized(name), 0));
    }
}

/// The wire name of a field is never lost: two names with the same
/// identifier and the same annotation are the same name.
pub proof fn lemma_wire_name_recoverable(a: Seq<char>, b: Seq<char>)
    requires
        sanitized(a) == sanitized(b),
        rename_annotation(a) == rename_annotation(b),
    ensures
        a == b,
{
    let open = "    #[serde(rename = \""@;
    let close = "\")]\n"@;
    assert(a.len() == sanitized(a).len());
    assert(b.len() == sanitized(b).len());
    if needs_rename(a) && needs_rename(b) {
        assert forall|i: int| 0 <= i < a.len() implies a[i] == b[i] by {
            assert((open + a + close)[open.len() + i] == a[i]);
            assert((open + b + close)[open.len() + i] == b[i]);
        }
        assert(a =~= b);
    } else if !needs_rename(a) && !needs_rename(b) {
        lemma_sanitized_changes_iff(a);
        lemma_sanitized_changes_iff(b);
    } else if needs_rename(a) {
        assert(a.len() > 0);
        assert((open + a + close).len() > 0);
    } else {
        assert(b.len() > 0);
        assert((open + b + close).len() > 0);
    }
}

/// Whether a character can stand in an identifier, at its start where
/// `first` holds and after its start where not, given whether it is
/// alphabetic.
pub fn is_legal_given(c: char, first: bool, alphabetic: bool) -> (legal: bool)
    ensures
        legal == legal_given(c, first, alphabetic),
{
    if c <= '\u{7f}' {
        ('a' <= c && c <= 'z') || ('A' <= c && c <= 'Z') || c == '_' || ('0' <= c && c <= '9'
            && !first)
    } else {
        alphabetic
    }
}

/// Whether a character can stand somewhere in an identifier.
pub fn is_identifier_char(c: char) -> (legal: bool)
    ensures
        legal == !is_illegal(c),
{
    is_legal_given(c, false, alphabetic(c))
}

/// Whether a character can stand in an identifier, at its start where
/// `first` holds and after its start where not.
pub fn is_legal_at(c: char, first: bool) -> (legal: bool)
    ensures
        legal == !(is_illegal(c) || (first && is_digit(c))),
{
    is_legal_given(c, first, alphabetic(c))
}

/// The identifier of a schema name.
pub fn sanitize_identifier(name: &str) -> (ident: String)
    ensures
        ident@ == sanitized(name@),
{
    let mut ident = String::new();
    let mut first = true;
    for c in it: name.chars()
        invariant
            it.seq() == name@,
            first == (it.index() == 0),
            ident@ =~= sanitized(name@.take(it.index())),
    {
        let ghost i = it.index();
        if is_legal_at(c, first) {
            ident.push(c);
        } else {
            ident.push('_');
        }
        first = false;
        proof {
            assert(name@.take(i + 1)[i] == c);
            assert(sanitized(name@.take(i + 1)) =~= sanitized(name@.take(i)).push(
                sanitized_at(name@.take(i + 1), i),
            ));
        }
    }
    proof {
        assert(name@.take(name@.len() as int) =~= name@);
    }
    ident
}

/// Whether a schema name needs a rename.
pub fn has_illegal_char(name: &str) -> (found: bool)
    ensures
        found == needs_rename(name@),
{
    let mut found = false;
    let mut first = true;
    for c in it: name.chars()
        invariant
            it.seq() == name@,
            first == (it.index() == 0),
            found == needs_rename(name@.take(it.index())),
    {
        proof {
            let i = it.index();
            assert(name@.take(i + 1) =~= name@.take(i).push(c));
            lemma_needs_rename_push(name@.take(i), c);
        }
        if !is_legal_at(c, first) {
            found = true;
        }
        first = false;
    }
    proof {
        assert(name@.take(name@.len() as int) =~= name@);
    }
    found
}

/// The annotation line of a field, which is empty unless the field's
/// identifier differs from its wire name.
pub fn external_name_annotation(name: &str) -> (line: String)
    ensures
        line@ == rename_annotation(name@),
{
    if has_illegal_char(name) {
        let mut line = "    #[serde(rename = \"".to_owned();
        line.append(name);
        line.append("\")]\n");
        line
    } else {
        String::new()
    }
}

/// What follows the first character of a name.
pub open spec fn after_first(name: Seq<char>) -> Seq<char> {
    if name.len() == 0 {
        name
    } else {
        name.skip(1)
    }
}

/// A property name with its first character in upper case.
pub open spec fn capitalized(name: Seq<char>) -> Seq<char> {
    if name.len() == 0 {
        name
    } else {
        uppercase_of(name[0]) + after_first(name)
    }
}

/// The name of the type that stands for an object nested in a definition,
/// under one of its properties: the definition's name, then the property's
/// name capitalized.
pub open spec fn nested_type_name(defname: Seq<char>, propname: Seq<char>) -> Seq<char> {
    defname + capitalized(propname)
}

/// Joins the name of a definition, the capital form of a property name's
/// first character, and the rest of the property name.
pub fn compose_type_name(defname: &str, initial: &str, propname: &str) -> (name: String)
    ensures
        name@ == defname@ + initial@ + after_first(propname@),
{
    let mut name = defname.to_owned();
    name.append(initial);
    let ghost head = name@;
    let mut first = true;
    for c in it: propname.chars()
        invariant
            it.seq() == propname@,
            first == (it.index() == 0),
            name@ =~= head + after_first(propname@.take(it.index())),
    {
        if first {
            first = false;
        } else {
            name.push(c);
        }
        proof {
            let i = it.index();
            assert(after_first(propname@.take(i + 1)) =~= if i == 0 {
                Seq::<char>::empty()
            } else {
                after_first(propname@.take(i)).push(c)
            });
        }
    }
    proof {
        assert(propname@.take(propname@.len() as int) =~= propname@);
    }
    name
}

/// The name of the type synthesized for an object nested under `propname` in
/// the definition `defname`.
pub fn synthesized_type_name(defname: &str, propname: &str) -> (name: String)
    ensures
        name@ == nested_type_name(defname@, propname@),
{
    if propname.unicode_len() == 0 {
        let name = defname.to_owned();
        assert(name@ =~= defname@ + propname@);
        name
    } else {
        let upper = uppercase(propname.get_char(0));
        let name = compose_type_name(defname, upper.as_str(), propname);
        assert(name@ =~= defname@ + (upper@ + after_first(propname@)));
        name
    }
}

} // verus!
