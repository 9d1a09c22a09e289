use blexicon::diagnostics::{diagnose, diagnose_def, field_is_mapped, reference_resolves, Diagnostic};
use blexicon::json::load_lexicon;
use blexicon::naming::reference_owner;
use blexicon::node_map::NodeMap;
use blexicon::schema::{ArrayType, LexiconData, LexiconDataType, RefType, UnionType};

const DOCUMENT: &str = r##"{
  "lexicon": 1,
  "id": "com.example.feed",
  "defs": {
    "main": { "type": "procedure" },
    "post": {
      "type": "object",
      "required": ["text", "ghost", "text"],
      "nullable": ["phantom", "embed"],
      "properties": {
        "text": { "type": "string" },
        "embed": { "type": "union", "refs": ["#image"] },
        "blobs": { "type": "array", "items": { "type": "blob", "accept": ["*/*"] } },
        "tags": { "type": "array", "items": { "type": "array", "items": { "type": "string" } } },
        "reply": { "type": "object", "properties": { "junk": { "type": "unknown" } } },
        "extra": { "type": "unknown" }
      }
    },
    "image": { "type": "object", "properties": {} },
    "embed": {
      "type": "union",
      "refs": ["#image", "#video", "image", "video", "com.example.feed#post", "com.example.other#post",
               "com.example.feed#nothing", "com.example.other#anything", "#"]
    },
    "clean": { "type": "union", "refs": ["#post", "com.example.media#clip"] },
    "marker": { "type": "token" }
  }
}"##;

fn s(text: &str) -> String {
    text.to_string()
}

fn node(data: LexiconDataType) -> LexiconData {
    LexiconData { data, description: None }
}

#[test]
fn diagnostics_of_a_document_in_order() {
    let lex = load_lexicon(DOCUMENT).unwrap();
    assert_eq!(
        diagnose(&lex),
        vec![
            Diagnostic::UnsupportedDefinition { definition: s("main"), kind: s("Procedure") },
            Diagnostic::UnknownRequired { definition: s("post"), name: s("ghost") },
            Diagnostic::UnknownNullable { definition: s("post"), name: s("phantom") },
            Diagnostic::UnsupportedField { definition: s("post"), property: s("embed") },
            Diagnostic::UnsupportedField { definition: s("post"), property: s("blobs") },
            Diagnostic::UnsupportedField { definition: s("post"), property: s("extra") },
            Diagnostic::UnsupportedField { definition: s("postReply"), property: s("junk") },
            Diagnostic::UnresolvedReference { definition: s("embed"), reference: s("#video") },
            Diagnostic::DuplicateVariant { definition: s("embed"), variant: s("image") },
            Diagnostic::UnresolvedReference { definition: s("embed"), reference: s("video") },
            Diagnostic::DuplicateVariant { definition: s("embed"), variant: s("video") },
            Diagnostic::DuplicateVariant { definition: s("embed"), variant: s("post") },
            Diagnostic::UnresolvedReference {
                definition: s("embed"),
                reference: s("com.example.feed#nothing")
            },
            Diagnostic::UnresolvedReference { definition: s("embed"), reference: s("#") },
            Diagnostic::UnsupportedDefinition { definition: s("marker"), kind: s("Token") },
        ]
    );
}

#[test]
fn diagnostics_of_one_definition() {
    let lex = load_lexicon(DOCUMENT).unwrap();
    let entries = lex.defs.entries();
    let (name, def) = entries[2];
    assert_eq!(name, "image");
    assert!(diagnose_def(&lex, name, def).is_empty());
    let (name, def) = entries[4];
    assert_eq!(name, "clean");
    assert!(diagnose_def(&lex, name, def).is_empty());
    let (name, def) = entries[5];
    assert_eq!(
        diagnose_def(&lex, name, def),
        vec![Diagnostic::UnsupportedDefinition { definition: s("marker"), kind: s("Token") }]
    );
}

#[test]
fn a_consistent_document_has_no_diagnostics() {
    let lex = load_lexicon(
        r##"{"lexicon":1,"id":"x.y","defs":{
            "a":{"type":"object","required":["p"],"nullable":["p"],
                 "properties":{"p":{"type":"ref","ref":"#b"}}},
            "b":{"type":"union","refs":["#a","x.y#b","z#q"]}}}"##,
    )
    .unwrap();
    assert!(diagnose(&lex).is_empty());
    let lex = load_lexicon(r#"{"lexicon":1,"id":"x.y","defs":{}}"#).unwrap();
    assert!(diagnose(&lex).is_empty());
}

#[test]
fn a_name_listed_twice_is_reported_twice() {
    let lex = load_lexicon(
        r#"{"lexicon":1,"id":"x","defs":{"a":{"type":"object","required":["p","q","p"],
            "properties":{"q":{"type":"string"}}}}}"#,
    )
    .unwrap();
    assert_eq!(
        diagnose(&lex),
        vec![
            Diagnostic::UnknownRequired { definition: s("a"), name: s("p") },
            Diagnostic::UnknownRequired { definition: s("a"), name: s("p") },
        ]
    );
}

#[test]
fn objects_in_properties_are_checked_under_the_names_of_their_types() {
    let lex = load_lexicon(
        r##"{"lexicon":1,"id":"x","defs":{"P":{"type":"object","properties":{
            "address":{"type":"object","required":["street","zip"],"nullable":["po"],
                "properties":{"street":{"type":"string"},
                    "geo":{"type":"object","required":["lat"],"properties":{"x":{"type":"token"}}}}},
            "tags":{"type":"array","items":{"type":"object","nullable":["n"],"properties":{}}}}}}}"##,
    )
    .unwrap();
    assert_eq!(
        diagnose(&lex),
        vec![
            Diagnostic::UnknownRequired { definition: s("PAddress"), name: s("zip") },
            Diagnostic::UnknownNullable { definition: s("PAddress"), name: s("po") },
            Diagnostic::UnknownRequired { definition: s("PAddressGeo"), name: s("lat") },
            Diagnostic::UnsupportedField { definition: s("PAddressGeo"), property: s("x") },
            Diagnostic::UnknownNullable { definition: s("PTags"), name: s("n") },
        ]
    );
}

#[test]
fn objects_whose_types_get_one_name_are_reported() {
    let lex = load_lexicon(
        r##"{"lexicon":1,"id":"x","defs":{"P":{"type":"object","properties":{
            "address":{"type":"object","properties":{"street":{"type":"object","properties":{}}}},
            "Address":{"type":"object","properties":{}},
            "addressStreet":{"type":"object","properties":{}},
            "other":{"type":"object","properties":{}}}},
          "Q":{"type":"object","properties":{"a":{"type":"object","properties":{}}}}}}"##,
    )
    .unwrap();
    assert_eq!(
        diagnose(&lex),
        vec![
            Diagnostic::DuplicateNestedType { definition: s("P"), name: s("PAddress") },
            Diagnostic::DuplicateNestedType { definition: s("P"), name: s("PAddressStreet") },
        ]
    );
}

#[test]
fn a_union_without_members_is_reported() {
    let lex = load_lexicon(r#"{"lexicon":1,"id":"x","defs":{"u":{"type":"union","refs":[]}}}"#)
        .unwrap();
    assert_eq!(diagnose(&lex), vec![Diagnostic::EmptyUnion { definition: s("u") }]);
}

#[test]
fn members_with_one_local_name_are_reported() {
    let lex = load_lexicon(
        r##"{"lexicon":1,"id":"x","defs":{"a":{"type":"token"},
            "u":{"type":"union","refs":["#a","x#a","other.doc#a","a","y#b"]}}}"##,
    )
    .unwrap();
    assert_eq!(
        diagnose(&lex),
        vec![
            Diagnostic::UnsupportedDefinition { definition: s("a"), kind: s("Token") },
            Diagnostic::DuplicateVariant { definition: s("u"), variant: s("a") },
            Diagnostic::DuplicateVariant { definition: s("u"), variant: s("a") },
            Diagnostic::DuplicateVariant { definition: s("u"), variant: s("a") },
        ]
    );
}

#[test]
fn messages_name_the_definition_and_the_fault() {
    assert_eq!(
        Diagnostic::DuplicateVariant { definition: s("embed"), variant: s("image") }.message(),
        "embed: variant `image` stands for more than one member"
    );
    assert_eq!(
        Diagnostic::EmptyUnion { definition: s("embed") }.message(),
        "embed: union has no member"
    );
    assert_eq!(
        Diagnostic::DuplicateNestedType { definition: s("P"), name: s("PAddress") }.message(),
        "P: type `PAddress` is named for more than one object"
    );
    assert_eq!(
        Diagnostic::UnknownRequired { definition: s("post"), name: s("ghost") }.message(),
        "post: required name `ghost` is not a property"
    );
    assert_eq!(
        Diagnostic::UnknownNullable { definition: s("post"), name: s("phantom") }.message(),
        "post: nullable name `phantom` is not a property"
    );
    assert_eq!(
        Diagnostic::UnresolvedReference { definition: s("embed"), reference: s("#video") }.message(),
        "embed: reference `#video` points to no definition"
    );
    assert_eq!(
        Diagnostic::UnsupportedDefinition { definition: s("main"), kind: s("Query") }.message(),
        "main: kind Query has no declaration"
    );
    assert_eq!(
        Diagnostic::UnsupportedField { definition: s("post"), property: s("extra") }.message(),
        "post: property `extra` is carried as text"
    );
}

#[test]
fn mapped_kinds_of_fields() {
    let reference = || LexiconDataType::Ref(RefType { reference: s("#a") });
    let union = || LexiconDataType::Union(UnionType { refs: vec![], closed: None });
    let list = |items: LexiconDataType| {
        LexiconDataType::Array(ArrayType { items: Box::new(node(items)), max_length: None })
    };
    assert!(field_is_mapped(&node(reference())));
    assert!(field_is_mapped(&node(LexiconDataType::CidLink)));
    assert!(field_is_mapped(&node(list(reference()))));
    assert!(field_is_mapped(&node(list(list(LexiconDataType::CidLink)))));
    assert!(!field_is_mapped(&node(union())));
    assert!(!field_is_mapped(&node(LexiconDataType::Unknown)));
    assert!(!field_is_mapped(&node(LexiconDataType::Null)));
    assert!(!field_is_mapped(&node(LexiconDataType::Token)));
    assert!(!field_is_mapped(&node(list(union()))));
    assert!(!field_is_mapped(&node(list(list(LexiconDataType::Token)))));
}

#[test]
fn owner_of_a_reference() {
    assert_eq!(reference_owner("com.example.foo#bar"), "com.example.foo");
    assert_eq!(reference_owner("com.example.foo"), "");
    assert_eq!(reference_owner("#bar"), "");
    assert_eq!(reference_owner("a#b#c"), "a#b");
    assert_eq!(reference_owner("a#"), "a");
    assert_eq!(reference_owner("#"), "");
    assert_eq!(reference_owner(""), "");
    assert_eq!(reference_owner("é#ü"), "é");
}

#[test]
fn references_resolve_against_the_definitions() {
    let mut defs = NodeMap::new();
    defs.insert(s("post"), node(LexiconDataType::Token));
    assert!(defs.contains_key("post"));
    assert!(!defs.contains_key("Post"));
    assert!(!defs.contains_key(""));
    assert!(reference_resolves("com.example.feed", &defs, "#post"));
    assert!(reference_resolves("com.example.feed", &defs, "post"));
    assert!(reference_resolves("com.example.feed", &defs, "com.example.feed#post"));
    assert!(reference_resolves("com.example.feed", &defs, "com.example.other#missing"));
    assert!(!reference_resolves("com.example.feed", &defs, "#missing"));
    assert!(!reference_resolves("com.example.feed", &defs, "missing"));
    assert!(!reference_resolves("com.example.feed", &defs, "com.example.feed#missing"));
    assert!(!reference_resolves("com.example.feed", &defs, "com.example.feed"));
    assert!(!reference_resolves("", &defs, ""));
}
