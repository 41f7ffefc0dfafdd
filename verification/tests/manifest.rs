use gdnative_surface::{Argument, Category, Function, Manifest};

fn func(name: &str) -> Function {
    Function {
        name: name.to_owned(),
        return_type: "void".to_owned(),
        arguments: vec![Argument { raw_type: "int".to_owned(), name: "p_x".to_owned() }],
    }
}

fn node(tag: &str, major: u32, minor: u32, fname: &str, next: Option<Box<Category>>) -> Category {
    Category {
        name: None,
        tag: tag.to_owned(),
        major,
        minor,
        next,
        functions: vec![func(fname)],
    }
}

#[test]
fn flatten_keeps_a_linked_revision_immediately_after_its_predecessor() {
    let b = node("X", 2, 0, "in_b", None);
    let a = node("X", 1, 1, "in_a", Some(Box::new(b)));
    let core = node("X", 1, 0, "in_core", Some(Box::new(a)));
    let m = Manifest { primary: core, extensions: Vec::new() };
    let flat = m.flatten();
    assert_eq!(flat.len(), 3);
    assert_eq!((flat[0].major, flat[0].minor), (1, 0));
    assert_eq!((flat[1].major, flat[1].minor), (1, 1));
    assert_eq!((flat[2].major, flat[2].minor), (2, 0));
    assert_eq!(flat[0].functions[0].name, "in_core");
    assert_eq!(flat[1].functions[0].name, "in_a");
    assert_eq!(flat[2].functions[0].name, "in_b");
}

#[test]
fn flatten_keeps_extension_chains_after_the_primary_chain_in_declaration_order() {
    let primary = node("X", 1, 0, "p0", Some(Box::new(node("X", 1, 1, "p1", None))));
    let ext_one = node("Y", 1, 0, "y0", Some(Box::new(node("Y", 2, 0, "y1", None))));
    let ext_two = node("Z", 1, 0, "z0", None);
    let m = Manifest { primary, extensions: vec![ext_one, ext_two] };
    let flat = m.flatten();
    let names: Vec<&str> = flat.iter().map(|r| r.functions[0].name.as_str()).collect();
    assert_eq!(names, vec!["p0", "p1", "y0", "y1", "z0"]);
    let tags: Vec<&str> = flat.iter().map(|r| r.tag.as_str()).collect();
    assert_eq!(tags, vec!["X", "X", "Y", "Y", "Z"]);
}

#[test]
fn flatten_does_not_deduplicate_equal_revisions() {
    let twin_a = node("X", 1, 0, "same", None);
    let twin_b = node("X", 1, 0, "same", None);
    let m = Manifest { primary: twin_a, extensions: vec![twin_b] };
    let flat = m.flatten();
    assert_eq!(flat.len(), 2);
    assert_eq!(flat[0], flat[1]);
}

#[test]
fn flatten_copies_functions_in_declaration_order() {
    let c = Category {
        name: Some("core".to_owned()),
        tag: "CORE".to_owned(),
        major: 1,
        minor: 0,
        next: None,
        functions: vec![func("first"), func("second"), func("third")],
    };
    let m = Manifest { primary: c, extensions: Vec::new() };
    let flat = m.flatten();
    assert_eq!(flat.len(), 1);
    let names: Vec<&str> = flat[0].functions.iter().map(|f| f.name.as_str()).collect();
    assert_eq!(names, vec!["first", "second", "third"]);
    assert_eq!(flat[0].functions[0].arguments[0].raw_type, "int");
}
