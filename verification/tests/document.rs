use gdnative_surface::{parse_manifest, DocField, DocValue, GenError};

fn field(key: &str, value: DocValue) -> DocField {
    DocField { key: key.to_owned(), value }
}

fn text(s: &str) -> DocValue {
    DocValue::Text(s.to_owned())
}

fn argument_doc(ty: &str, name: &str) -> DocValue {
    DocValue::Fields(vec![field("type", text(ty)), field("name", text(name))])
}

fn function_doc(name: &str, ret: &str, args: Vec<DocValue>) -> DocValue {
    DocValue::Fields(vec![
        field("name", text(name)),
        field("returnType", text(ret)),
        field("arguments", DocValue::Items(args)),
    ])
}

fn category_doc(tag: &str, major: u64, minor: u64, next: Option<DocValue>, functions: Vec<DocValue>) -> DocValue {
    let mut fields = vec![
        field("tag", text(tag)),
        field(
            "version",
            DocValue::Fields(vec![
                field("major", DocValue::Number(major)),
                field("minor", DocValue::Number(minor)),
            ]),
        ),
    ];
    match next {
        Some(n) => fields.push(field("next", n)),
        None => fields.push(field("next", DocValue::Null)),
    }
    fields.push(field("functions", DocValue::Items(functions)));
    DocValue::Fields(fields)
}

fn manifest_doc(primary: DocValue, extensions: Vec<DocValue>) -> DocValue {
    DocValue::Fields(vec![
        field("primary", primary),
        field("extensions", DocValue::Items(extensions)),
    ])
}

#[test]
fn parse_reads_the_whole_description() {
    let newer = category_doc(
        "CORE",
        1,
        1,
        None,
        vec![function_doc("newer", "void", vec![])],
    );
    let primary = category_doc(
        "CORE",
        1,
        0,
        Some(newer),
        vec![function_doc(
            "godot_alloc",
            "void *",
            vec![argument_doc("int", "p_bytes")],
        )],
    );
    let ext = category_doc(
        "NATIVESCRIPT",
        1,
        0,
        None,
        vec![function_doc("register_class", "void", vec![])],
    );
    let m = parse_manifest(&manifest_doc(primary, vec![ext])).unwrap();
    assert_eq!(m.primary.tag, "CORE");
    assert_eq!((m.primary.major, m.primary.minor), (1, 0));
    assert_eq!(m.primary.functions.len(), 1);
    assert_eq!(m.primary.functions[0].name, "godot_alloc");
    assert_eq!(m.primary.functions[0].return_type, "void *");
    assert_eq!(m.primary.functions[0].arguments[0].raw_type, "int");
    assert_eq!(m.primary.functions[0].arguments[0].name, "p_bytes");
    let next = m.primary.next.as_ref().unwrap();
    assert_eq!((next.major, next.minor), (1, 1));
    assert_eq!(next.functions[0].name, "newer");
    assert!(next.next.is_none());
    assert_eq!(m.extensions.len(), 1);
    assert_eq!(m.extensions[0].tag, "NATIVESCRIPT");
}

#[test]
fn parse_accepts_an_optional_category_name() {
    let mut primary = category_doc("CORE", 1, 0, None, vec![]);
    if let DocValue::Fields(fields) = &mut primary {
        fields.push(field("name", text("core")));
    }
    let m = parse_manifest(&manifest_doc(primary, vec![])).unwrap();
    assert_eq!(m.primary.name, Some("core".to_owned()));
    let bare = category_doc("CORE", 1, 0, None, vec![]);
    let m2 = parse_manifest(&manifest_doc(bare, vec![])).unwrap();
    assert_eq!(m2.primary.name, None);
}

#[test]
fn parse_rejects_a_description_that_is_no_table() {
    assert_eq!(
        parse_manifest(&DocValue::Number(3)),
        Err(GenError::MalformedManifest("manifest".to_owned()))
    );
}

#[test]
fn parse_rejects_a_missing_primary() {
    let doc = DocValue::Fields(vec![field("extensions", DocValue::Items(vec![]))]);
    assert_eq!(
        parse_manifest(&doc),
        Err(GenError::MalformedManifest("manifest.primary".to_owned()))
    );
}

#[test]
fn parse_rejects_missing_extensions() {
    let doc = DocValue::Fields(vec![field(
        "primary",
        category_doc("CORE", 1, 0, None, vec![]),
    )]);
    assert_eq!(
        parse_manifest(&doc),
        Err(GenError::MalformedManifest("manifest.extensions".to_owned()))
    );
}

#[test]
fn parse_rejects_a_category_without_a_tag() {
    let doc = manifest_doc(
        DocValue::Fields(vec![field("functions", DocValue::Items(vec![]))]),
        vec![],
    );
    assert_eq!(
        parse_manifest(&doc),
        Err(GenError::MalformedManifest("category.tag".to_owned()))
    );
}

#[test]
fn parse_rejects_a_mistyped_version_number() {
    let bad = DocValue::Fields(vec![
        field("tag", text("CORE")),
        field(
            "version",
            DocValue::Fields(vec![
                field("major", text("one")),
                field("minor", DocValue::Number(0)),
            ]),
        ),
        field("functions", DocValue::Items(vec![])),
    ]);
    assert_eq!(
        parse_manifest(&manifest_doc(bad, vec![])),
        Err(GenError::MalformedManifest("version.major".to_owned()))
    );
}

#[test]
fn parse_rejects_a_version_number_out_of_range() {
    let bad = DocValue::Fields(vec![
        field("tag", text("CORE")),
        field(
            "version",
            DocValue::Fields(vec![
                field("major", DocValue::Number(1)),
                field("minor", DocValue::Number(0x1_0000_0000)),
            ]),
        ),
        field("functions", DocValue::Items(vec![])),
    ]);
    assert_eq!(
        parse_manifest(&manifest_doc(bad, vec![])),
        Err(GenError::MalformedManifest("version.minor".to_owned()))
    );
}

#[test]
fn parse_rejects_a_function_without_a_return_type() {
    let bad_function = DocValue::Fields(vec![
        field("name", text("orphan")),
        field("arguments", DocValue::Items(vec![])),
    ]);
    let doc = manifest_doc(category_doc("CORE", 1, 0, None, vec![bad_function]), vec![]);
    assert_eq!(
        parse_manifest(&doc),
        Err(GenError::MalformedManifest("function.returnType".to_owned()))
    );
}

#[test]
fn parse_rejects_an_argument_without_a_type() {
    let bad_argument = DocValue::Fields(vec![field("name", text("p_x"))]);
    let doc = manifest_doc(
        category_doc(
            "CORE",
            1,
            0,
            None,
            vec![function_doc("f", "void", vec![bad_argument])],
        ),
        vec![],
    );
    assert_eq!(
        parse_manifest(&doc),
        Err(GenError::MalformedManifest("argument.type".to_owned()))
    );
}

#[test]
fn parse_rejects_a_mistyped_linked_revision() {
    let doc = manifest_doc(
        category_doc("CORE", 1, 0, Some(DocValue::Flag(true)), vec![]),
        vec![],
    );
    assert_eq!(
        parse_manifest(&doc),
        Err(GenError::MalformedManifest("category".to_owned()))
    );
}

#[test]
fn parse_rejects_a_missing_functions_list() {
    let bad = DocValue::Fields(vec![
        field("tag", text("CORE")),
        field(
            "version",
            DocValue::Fields(vec![
                field("major", DocValue::Number(1)),
                field("minor", DocValue::Number(0)),
            ]),
        ),
    ]);
    assert_eq!(
        parse_manifest(&manifest_doc(bad, vec![])),
        Err(GenError::MalformedManifest("category.functions".to_owned()))
    );
}

#[test]
fn parse_rejects_a_mistyped_category_name() {
    let mut primary = category_doc("CORE", 1, 0, None, vec![]);
    if let DocValue::Fields(fields) = &mut primary {
        fields.push(field("name", DocValue::Number(7)));
    }
    assert_eq!(
        parse_manifest(&manifest_doc(primary, vec![])),
        Err(GenError::MalformedManifest("category.name".to_owned()))
    );
}

#[test]
fn parse_rejects_a_function_without_a_name() {
    let bad_function = DocValue::Fields(vec![
        field("returnType", text("void")),
        field("arguments", DocValue::Items(vec![])),
    ]);
    let doc = manifest_doc(category_doc("CORE", 1, 0, None, vec![bad_function]), vec![]);
    assert_eq!(
        parse_manifest(&doc),
        Err(GenError::MalformedManifest("function.name".to_owned()))
    );
}

#[test]
fn parse_rejects_an_argument_without_a_name() {
    let bad_argument = DocValue::Fields(vec![field("type", text("int"))]);
    let doc = manifest_doc(
        category_doc(
            "CORE",
            1,
            0,
            None,
            vec![function_doc("f", "void", vec![bad_argument])],
        ),
        vec![],
    );
    assert_eq!(
        parse_manifest(&doc),
        Err(GenError::MalformedManifest("argument.name".to_owned()))
    );
}

#[test]
fn parse_then_generate_round_trip() {
    let primary = category_doc(
        "CORE",
        1,
        0,
        None,
        vec![function_doc(
            "godot_alloc",
            "void *",
            vec![argument_doc("int", "p_bytes")],
        )],
    );
    let m = parse_manifest(&manifest_doc(primary, vec![])).unwrap();
    let out = gdnative_surface::generate(&m).unwrap();
    assert!(out.contains("godot_alloc: fn(bytes: c_int) -> *mut c_void"));
    assert!(out.contains("table GDNATIVE_API_TYPES_GDNATIVE_CORE 1 0"));
}
