use blexicon::codegen::{
    codegen_block, codegen_defs, codegen_nested, codegen_field, codegen_file, codegen_one_def, codegen_placeholder,
    codegen_record, codegen_union, doc_comment, field_type, final_type, is_listed,
    is_optional_field,
};
use blexicon::node_map::NodeMap;
use blexicon::schema::{
    ArrayType, BlobType, BooleanType, BytesType, IntegerType, LexiconData, LexiconDataType,
    LexiconFile, ObjectType, ParamsType, ProcedureType, QueryType, RecordType, RefType,
    StringType, SubscriptionType, UnionType,
};

const DERIVE: &str = "#[derive(Debug, Clone, Serialize, Deserialize)]\n";

fn node(data: LexiconDataType) -> LexiconData {
    LexiconData { data, description: None }
}

fn described(data: LexiconDataType, description: &str) -> LexiconData {
    LexiconData { data, description: Some(description.to_string()) }
}

fn string() -> LexiconDataType {
    LexiconDataType::String(StringType {
        format: None,
        max_length: None,
        min_length: None,
        max_graphemes: None,
        min_graphemes: None,
        known_values: None,
        allowed_enum: None,
        default: None,
        constant: None,
    })
}

fn integer() -> LexiconDataType {
    LexiconDataType::Integer(IntegerType {
        minimum: None,
        maximum: None,
        allowed_enum: None,
        default: None,
        constant: None,
    })
}

fn boolean() -> LexiconDataType {
    LexiconDataType::Boolean(BooleanType { default: None, constant: None })
}

fn bytes() -> LexiconDataType {
    LexiconDataType::Bytes(BytesType { max_length: None, min_length: None })
}

fn blob() -> LexiconDataType {
    LexiconDataType::Blob(BlobType { accept: vec!["image/png".to_string()], max_size: None })
}

fn reference(to: &str) -> LexiconDataType {
    LexiconDataType::Ref(RefType { reference: to.to_string() })
}

fn array(items: LexiconDataType) -> LexiconDataType {
    LexiconDataType::Array(ArrayType { items: Box::new(node(items)), max_length: None })
}

fn names(list: &[&str]) -> Vec<String> {
    list.iter().map(|s| s.to_string()).collect()
}

fn properties(list: Vec<(&str, LexiconData)>) -> NodeMap {
    let mut map = NodeMap::new();
    for (name, data) in list {
        map.insert(name.to_string(), data);
    }
    map
}

fn object_type(required: &[&str], nullable: &[&str], props: Vec<(&str, LexiconData)>) -> ObjectType {
    ObjectType { required: names(required), nullable: names(nullable), properties: properties(props) }
}

fn object(required: &[&str], nullable: &[&str], props: Vec<(&str, LexiconData)>) -> LexiconDataType {
    LexiconDataType::Object(object_type(required, nullable, props))
}

fn union(refs: &[&str]) -> LexiconDataType {
    LexiconDataType::Union(UnionType { refs: names(refs), closed: None })
}

fn query() -> LexiconDataType {
    LexiconDataType::Query(QueryType { parameters: None, output: None, errors: vec![] })
}

fn file(defs: Vec<(&str, LexiconData)>) -> LexiconFile {
    LexiconFile {
        lexicon: 1,
        id: "com.example.profile".to_string(),
        revision: None,
        description: None,
        defs: properties(defs),
    }
}

#[test]
fn required_string_property_is_a_plain_field() {
    let def = node(object(&["name"], &[], vec![("name", node(string()))]));
    assert_eq!(
        codegen_one_def("Profile", &def),
        format!("{}pub struct Profile {{\n    pub name: String,\n}}\n\n", DERIVE)
    );
}

#[test]
fn string_property_not_required_is_optional() {
    let def = node(object(&[], &[], vec![("name", node(string()))]));
    assert_eq!(
        codegen_one_def("Profile", &def),
        format!("{}pub struct Profile {{\n    pub name: Option<String>,\n}}\n\n", DERIVE)
    );
}

#[test]
fn array_of_strings_is_a_list_of_text() {
    let def = node(object(&["tags"], &[], vec![("tags", node(array(string())))]));
    assert_eq!(
        codegen_one_def("Profile", &def),
        format!("{}pub struct Profile {{\n    pub tags: Vec<String>,\n}}\n\n", DERIVE)
    );
    let def = node(object(&[], &[], vec![("tags", node(array(string())))]));
    assert_eq!(
        codegen_one_def("Profile", &def),
        format!("{}pub struct Profile {{\n    pub tags: Option<Vec<String>>,\n}}\n\n", DERIVE)
    );
}

#[test]
fn union_of_two_references_has_two_variants() {
    let def = node(union(&["#foo", "#bar"]));
    assert_eq!(
        codegen_one_def("Embed", &def),
        format!("{}#[serde(tag = \"type\")]\npub enum Embed {{\n    foo,\n    bar,\n}}\n\n", DERIVE)
    );
}

#[test]
fn query_becomes_a_placeholder_and_the_rest_goes_on() {
    let lex = file(vec![
        ("main", node(query())),
        ("Profile", node(object(&["name"], &[], vec![("name", node(string()))]))),
    ]);
    let blocks = codegen_defs(&lex);
    assert_eq!(blocks.len(), 2);
    assert_eq!(blocks[0], "/* main: Query - not generated */\n");
    assert_eq!(
        blocks[1],
        format!("{}pub struct Profile {{\n    pub name: String,\n}}\n\n", DERIVE)
    );
}

#[test]
fn inline_object_gets_a_synthesized_name() {
    let inner = object(&[], &[], vec![("street", node(string()))]);
    let def = node(object(&["address"], &[], vec![("address", node(inner))]));
    assert_eq!(
        codegen_one_def("Profile", &def),
        format!("{}pub struct Profile {{\n    pub address: ProfileAddress,\n}}\n\n", DERIVE)
    );
}

#[test]
fn optionality_for_all_four_combinations() {
    let obj = object_type(
        &["both", "required_only"],
        &["both", "nullable_only"],
        vec![
            ("both", node(string())),
            ("required_only", node(string())),
            ("nullable_only", node(string())),
            ("neither", node(string())),
        ],
    );
    assert!(is_optional_field(&obj, "both"));
    assert!(!is_optional_field(&obj, "required_only"));
    assert!(is_optional_field(&obj, "nullable_only"));
    assert!(is_optional_field(&obj, "neither"));
    assert_eq!(
        codegen_record("T", &obj),
        format!(
            "{}pub struct T {{\n    pub both: Option<String>,\n    pub required_only: String,\n    pub nullable_only: Option<String>,\n    pub neither: Option<String>,\n}}\n\n",
            DERIVE
        )
    );
}

#[test]
fn required_name_without_a_property_adds_no_field() {
    let obj = object_type(&["ghost", "name"], &["phantom"], vec![("name", node(string()))]);
    assert_eq!(
        codegen_record("T", &obj),
        format!("{}pub struct T {{\n    pub name: String,\n}}\n\n", DERIVE)
    );
}

#[test]
fn listed_names_are_found() {
    let list = names(&["a", "b", "created-at"]);
    assert!(is_listed(&list, "a"));
    assert!(is_listed(&list, "created-at"));
    assert!(!is_listed(&list, "c"));
    assert!(!is_listed(&list, ""));
    assert!(!is_listed(&names(&[]), "a"));
}

#[test]
fn field_types_of_the_kinds_with_a_mapping() {
    assert_eq!(field_type("T", "p", &node(string())), "String");
    assert_eq!(field_type("T", "p", &node(integer())), "i64");
    assert_eq!(field_type("T", "p", &node(boolean())), "bool");
    assert_eq!(field_type("T", "p", &node(bytes())), "Vec<u8>");
    assert_eq!(field_type("T", "p", &node(LexiconDataType::CidLink)), "String");
    assert_eq!(field_type("T", "p", &node(reference("com.example.defs#thing"))), "thing");
    assert_eq!(field_type("T", "p", &node(reference("thing"))), "thing");
    assert_eq!(field_type("T", "p", &node(object(&[], &[], vec![]))), "TP");
}

#[test]
fn field_types_of_lists_follow_their_items() {
    assert_eq!(field_type("T", "p", &node(array(integer()))), "Vec<i64>");
    assert_eq!(field_type("T", "p", &node(array(boolean()))), "Vec<bool>");
    assert_eq!(field_type("T", "p", &node(array(bytes()))), "Vec<Vec<u8>>");
    assert_eq!(field_type("T", "p", &node(array(reference("app.bsky.actor#view")))), "Vec<view>");
    assert_eq!(field_type("T", "p", &node(array(array(string())))), "Vec<Vec<String>>");
    assert_eq!(field_type("T", "items", &node(array(object(&[], &[], vec![])))), "Vec<TItems>");
    assert_eq!(field_type("T", "p", &node(array(LexiconDataType::Unknown))), "Vec<String>");
}

#[test]
fn field_types_of_the_other_kinds_fall_back_to_text() {
    let params = LexiconDataType::Params(ParamsType { required: vec![], properties: NodeMap::new() });
    let record = LexiconDataType::Record(RecordType {
        key: "tid".to_string(),
        record: object_type(&[], &[], vec![]),
    });
    let procedure = LexiconDataType::Procedure(ProcedureType {
        parameters: None,
        input: None,
        output: None,
        errors: vec![],
    });
    let subscription = LexiconDataType::Subscription(SubscriptionType {
        parameters: None,
        message: None,
        errors: vec![],
    });
    for data in [
        union(&["#a"]),
        blob(),
        params,
        record,
        query(),
        procedure,
        subscription,
        LexiconDataType::Unknown,
        LexiconDataType::Null,
        LexiconDataType::Token,
    ] {
        assert_eq!(field_type("T", "p", &node(data)), "String");
    }
}

#[test]
fn final_type_wraps_only_an_optional_field() {
    assert_eq!(final_type(true, "i64".to_string()), "Option<i64>");
    assert_eq!(final_type(false, "i64".to_string()), "i64");
    assert_eq!(final_type(true, "Vec<u8>".to_string()), "Option<Vec<u8>>");
}

#[test]
fn doc_comment_of_a_description() {
    assert_eq!(doc_comment(&Some("The name.".to_string())), "    /// The name.\n");
    assert_eq!(doc_comment(&None), "");
}

#[test]
fn field_with_description_and_rename() {
    let obj = object_type(&["created-at"], &[], vec![]);
    let prop = described(string(), "When it was made.");
    assert_eq!(
        codegen_field("Post", &obj, "created-at", &prop),
        "    /// When it was made.\n    #[serde(rename = \"created-at\")]\n    pub created_at: String,\n"
    );
}

#[test]
fn field_keeps_wire_name_of_a_sanitized_identifier() {
    let def = node(object(
        &[],
        &[],
        vec![("created-at", node(string())), ("app.bsky", node(integer()))],
    ));
    assert_eq!(
        codegen_one_def("Post", &def),
        format!(
            "{}pub struct Post {{\n    #[serde(rename = \"created-at\")]\n    pub created_at: Option<String>,\n    #[serde(rename = \"app.bsky\")]\n    pub app_bsky: Option<i64>,\n}}\n\n",
            DERIVE
        )
    );
}

#[test]
fn field_of_a_name_with_any_illegal_character_is_renamed() {
    let def = node(object(
        &["a b", "9lives"],
        &[],
        vec![
            ("a b", node(string())),
            ("9lives", node(integer())),
            ("naïve", node(boolean())),
            ("a→b", node(boolean())),
            ("plain_1", node(boolean())),
        ],
    ));
    assert_eq!(
        codegen_one_def("Odd", &def),
        format!(
            "{}pub struct Odd {{\n    #[serde(rename = \"a b\")]\n    pub a_b: String,\n    #[serde(rename = \"9lives\")]\n    pub _lives: i64,\n    pub naïve: Option<bool>,\n    #[serde(rename = \"a→b\")]\n    pub a_b: Option<bool>,\n    pub plain_1: Option<bool>,\n}}\n\n",
            DERIVE
        )
    );
}

#[test]
fn record_without_properties() {
    assert_eq!(
        codegen_one_def("Empty", &node(object(&[], &[], vec![]))),
        format!("{}pub struct Empty {{\n}}\n\n", DERIVE)
    );
}

#[test]
fn fields_follow_the_order_of_the_properties() {
    let def = node(object(
        &["z", "a", "m"],
        &[],
        vec![("z", node(string())), ("a", node(integer())), ("m", node(boolean()))],
    ));
    assert_eq!(
        codegen_one_def("Ordered", &def),
        format!(
            "{}pub struct Ordered {{\n    pub z: String,\n    pub a: i64,\n    pub m: bool,\n}}\n\n",
            DERIVE
        )
    );
}

#[test]
fn union_variants_resolve_and_keep_their_order() {
    let u = UnionType {
        refs: names(&["com.example.defs#zebra", "apple", "#mango", "com.example.other#apple"]),
        closed: Some(true),
    };
    assert_eq!(
        codegen_union("Fruit", &u),
        format!(
            "{}#[serde(tag = \"type\")]\npub enum Fruit {{\n    zebra,\n    apple,\n    mango,\n    apple,\n}}\n\n",
            DERIVE
        )
    );
}

#[test]
fn union_without_members() {
    assert_eq!(
        codegen_one_def("Nothing", &node(union(&[]))),
        format!("{}#[serde(tag = \"type\")]\npub enum Nothing {{\n}}\n\n", DERIVE)
    );
}

#[test]
fn placeholder_names_the_definition_and_its_kind() {
    assert_eq!(codegen_placeholder("main", &query()), "/* main: Query - not generated */\n");
    assert_eq!(
        codegen_placeholder("x", &LexiconDataType::CidLink),
        "/* x: CidLink - not generated */\n"
    );
    assert_eq!(codegen_one_def("s", &node(string())), "/* s: String - not generated */\n");
    assert_eq!(codegen_one_def("i", &node(integer())), "/* i: Integer - not generated */\n");
    assert_eq!(codegen_one_def("b", &node(boolean())), "/* b: Boolean - not generated */\n");
    assert_eq!(codegen_one_def("y", &node(bytes())), "/* y: Bytes - not generated */\n");
    assert_eq!(codegen_one_def("o", &node(blob())), "/* o: Blob - not generated */\n");
    assert_eq!(codegen_one_def("a", &node(array(string()))), "/* a: Array - not generated */\n");
    assert_eq!(codegen_one_def("r", &node(reference("#x"))), "/* r: Ref - not generated */\n");
    assert_eq!(
        codegen_one_def("u", &node(LexiconDataType::Unknown)),
        "/* u: Unknown - not generated */\n"
    );
    assert_eq!(codegen_one_def("n", &node(LexiconDataType::Null)), "/* n: Null - not generated */\n");
    assert_eq!(
        codegen_one_def("t", &node(LexiconDataType::Token)),
        "/* t: Token - not generated */\n"
    );
}

#[test]
fn placeholder_for_the_request_kinds() {
    let params = LexiconDataType::Params(ParamsType { required: vec![], properties: NodeMap::new() });
    let record = LexiconDataType::Record(RecordType {
        key: "tid".to_string(),
        record: object_type(&["name"], &[], vec![("name", node(string()))]),
    });
    let procedure = LexiconDataType::Procedure(ProcedureType {
        parameters: None,
        input: None,
        output: None,
        errors: vec![],
    });
    let subscription = LexiconDataType::Subscription(SubscriptionType {
        parameters: None,
        message: None,
        errors: vec![],
    });
    assert_eq!(codegen_one_def("p", &node(params)), "/* p: Params - not generated */\n");
    assert_eq!(codegen_one_def("main", &node(record)), "/* main: Record - not generated */\n");
    assert_eq!(codegen_one_def("do", &node(procedure)), "/* do: Procedure - not generated */\n");
    assert_eq!(
        codegen_one_def("sub", &node(subscription)),
        "/* sub: Subscription - not generated */\n"
    );
}

#[test]
fn blocks_follow_the_order_of_the_definitions() {
    let lex = file(vec![
        ("zeta", node(union(&["#a"]))),
        ("alpha", node(LexiconDataType::Token)),
        ("mid", node(object(&[], &[], vec![]))),
    ]);
    let blocks = codegen_defs(&lex);
    assert_eq!(blocks.len(), 3);
    assert_eq!(blocks[0], codegen_one_def("zeta", &node(union(&["#a"]))));
    assert_eq!(blocks[1], "/* alpha: Token - not generated */\n");
    assert_eq!(blocks[2], codegen_one_def("mid", &node(object(&[], &[], vec![]))));
}

#[test]
fn output_is_the_blocks_each_followed_by_a_line_break() {
    let lex = file(vec![
        ("main", node(query())),
        ("Profile", node(object(&["name"], &[], vec![("name", node(string()))]))),
    ]);
    assert_eq!(
        codegen_file(&lex),
        format!(
            "/* main: Query - not generated */\n\n{}pub struct Profile {{\n    pub name: String,\n}}\n\n\n",
            DERIVE
        )
    );
    let blocks = codegen_defs(&lex);
    let mut joined = String::new();
    for block in &blocks {
        joined.push_str(block);
        joined.push('\n');
    }
    assert_eq!(codegen_file(&lex), joined);
}

#[test]
fn output_of_a_document_without_definitions_is_empty() {
    let lex = file(vec![]);
    assert_eq!(codegen_file(&lex), "");
    assert!(codegen_defs(&lex).is_empty());
}

#[test]
fn generating_twice_gives_the_same_output() {
    let lex = file(vec![
        ("main", node(query())),
        ("Profile", node(object(&["name"], &["name"], vec![("name", described(string(), "x"))]))),
        ("Embed", node(union(&["#a", "com.example#b"]))),
    ]);
    assert_eq!(codegen_file(&lex), codegen_file(&lex));
    assert_eq!(codegen_defs(&lex), codegen_defs(&lex));
}

fn profile_with_nested() -> LexiconData {
    let geo = object(&["lat"], &[], vec![("lat", node(integer())), ("lon", node(integer()))]);
    let address = object(
        &["street"],
        &[],
        vec![("street", node(string())), ("geo", node(geo)), ("created-at", node(string()))],
    );
    let tag = object(&[], &[], vec![("label", node(string()))]);
    node(object(
        &["address"],
        &[],
        vec![
            ("name", node(string())),
            ("address", node(address)),
            ("tags", node(array(array(tag)))),
            ("pinned", node(reference("#post"))),
        ],
    ))
}

fn address_text() -> String {
    format!(
        "{}pub struct ProfileAddress {{\n    pub street: String,\n    pub geo: Option<ProfileAddressGeo>,\n    #[serde(rename = \"created-at\")]\n    pub created_at: Option<String>,\n}}\n\n",
        DERIVE
    )
}

fn geo_text() -> String {
    format!(
        "{}pub struct ProfileAddressGeo {{\n    pub lat: i64,\n    pub lon: Option<i64>,\n}}\n\n",
        DERIVE
    )
}

fn tags_text() -> String {
    format!("{}pub struct ProfileTags {{\n    pub label: Option<String>,\n}}\n\n", DERIVE)
}

#[test]
fn nested_objects_are_declared_under_their_synthesized_names() {
    let nested = codegen_nested("Profile", &profile_with_nested());
    assert_eq!(
        nested,
        vec![
            ("ProfileAddress".to_string(), address_text()),
            ("ProfileAddressGeo".to_string(), geo_text()),
            ("ProfileTags".to_string(), tags_text()),
        ]
    );
}

#[test]
fn block_is_the_declaration_and_then_the_nested_declarations() {
    let def = profile_with_nested();
    let own = codegen_one_def("Profile", &def);
    assert_eq!(
        own,
        format!(
            "{}pub struct Profile {{\n    pub name: Option<String>,\n    pub address: ProfileAddress,\n    pub tags: Option<Vec<Vec<ProfileTags>>>,\n    pub pinned: Option<post>,\n}}\n\n",
            DERIVE
        )
    );
    assert_eq!(
        codegen_block("Profile", &def),
        format!("{}{}{}{}", own, address_text(), geo_text(), tags_text())
    );
    let lex = file(vec![("Profile", profile_with_nested()), ("marker", node(LexiconDataType::Token))]);
    assert_eq!(
        codegen_defs(&lex),
        vec![codegen_block("Profile", &def), "/* marker: Token - not generated */\n".to_string()]
    );
    assert_eq!(
        codegen_file(&lex),
        format!("{}\n/* marker: Token - not generated */\n\n", codegen_block("Profile", &def))
    );
}

#[test]
fn a_synthesized_name_is_declared_once() {
    let first = object(&[], &[], vec![("a", node(string()))]);
    let second = object(&[], &[], vec![("b", node(integer()))]);
    let inner = object(&[], &[], vec![("street", node(object(&[], &[], vec![])))]);
    let def = node(object(
        &[],
        &[],
        vec![
            ("address", node(first)),
            ("Address", node(second)),
            ("addressStreet", node(object(&[], &[], vec![("x", node(boolean()))]))),
            ("x", node(inner)),
        ],
    ));
    let nested = codegen_nested("P", &def);
    let names: Vec<&str> = nested.iter().map(|(name, _)| name.as_str()).collect();
    assert_eq!(names, vec!["PAddress", "PAddressStreet", "PX", "PXStreet"]);
    assert_eq!(
        nested[0].1,
        format!("{}pub struct PAddress {{\n    pub a: Option<String>,\n}}\n\n", DERIVE)
    );
    assert_eq!(
        nested[1].1,
        format!("{}pub struct PAddressStreet {{\n    pub x: Option<bool>,\n}}\n\n", DERIVE)
    );
}

#[test]
fn definitions_without_inline_objects_have_no_nested_declarations() {
    assert!(codegen_nested("T", &node(object(&[], &[], vec![("a", node(string()))]))).is_empty());
    assert!(codegen_nested("T", &node(union(&["#a"]))).is_empty());
    assert!(codegen_nested("T", &node(query())).is_empty());
    assert!(codegen_nested("T", &node(array(object(&[], &[], vec![])))).is_empty());
    let def = node(object(&[], &[], vec![("a", node(string()))]));
    assert_eq!(codegen_block("T", &def), codegen_one_def("T", &def));
    assert_eq!(codegen_block("q", &node(query())), "/* q: Query - not generated */\n");
}
