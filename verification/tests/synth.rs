use gdnative_surface::synth::{enumerant_for, struct_name_for};
use gdnative_surface::{
    generate, renamed_arg, required_apis, Argument, Category, Function, GenError, Manifest,
};

fn arg(ty: &str, name: &str) -> Argument {
    Argument { raw_type: ty.to_owned(), name: name.to_owned() }
}

fn func(name: &str, ret: &str, arguments: Vec<Argument>) -> Function {
    Function { name: name.to_owned(), return_type: ret.to_owned(), arguments }
}

fn leaf(tag: &str, major: u32, minor: u32, functions: Vec<Function>) -> Category {
    Category {
        name: None,
        tag: tag.to_owned(),
        major,
        minor,
        next: None,
        functions,
    }
}

#[test]
fn rename_strips_host_prefix_only() {
    assert_eq!(renamed_arg("p_count"), "count");
    assert_eq!(renamed_arg("p_bytes"), "bytes");
}

#[test]
fn rename_avoids_reserved_self() {
    assert_eq!(renamed_arg("p_self"), "self_");
    assert_eq!(renamed_arg("self"), "self_");
}

#[test]
fn rename_leaves_plain_names_alone() {
    assert_eq!(renamed_arg("instance"), "instance");
    assert_eq!(renamed_arg("r_dest"), "r_dest");
}

#[test]
fn rename_strips_repeated_prefix() {
    assert_eq!(renamed_arg("p_p_count"), "count");
}

#[test]
fn struct_names_of_the_fixed_table() {
    assert_eq!(struct_name_for("CORE", 1, 0), Ok("godot_gdnative_core_api_struct".to_owned()));
    assert_eq!(
        struct_name_for("CORE", 1, 2),
        Ok("godot_gdnative_core_1_2_api_struct".to_owned())
    );
    assert_eq!(
        struct_name_for("NATIVESCRIPT", 1, 0),
        Ok("godot_gdnative_ext_nativescript_api_struct".to_owned())
    );
    assert_eq!(
        struct_name_for("NATIVESCRIPT", 1, 1),
        Ok("godot_gdnative_ext_nativescript_1_1_api_struct".to_owned())
    );
    assert_eq!(
        struct_name_for("PLUGINSCRIPT", 1, 0),
        Ok("godot_gdnative_ext_pluginscript_api_struct".to_owned())
    );
    assert_eq!(
        struct_name_for("ANDROID", 1, 0),
        Ok("godot_gdnative_ext_android_api_struct".to_owned())
    );
    assert_eq!(struct_name_for("ARVR", 1, 1), Ok("godot_gdnative_ext_arvr_api_struct".to_owned()));
    assert_eq!(
        struct_name_for("VIDEODECODER", 0, 1),
        Ok("godot_gdnative_ext_videodecoder_api_struct".to_owned())
    );
    assert_eq!(struct_name_for("NET", 3, 1), Ok("godot_gdnative_ext_net_api_struct".to_owned()));
}

#[test]
fn struct_name_outside_the_table_is_unknown_category() {
    assert_eq!(
        struct_name_for("ARVR", 1, 0),
        Err(GenError::UnknownCategory("ARVR".to_owned(), 1, 0))
    );
    assert_eq!(
        struct_name_for("CUSTOM", 1, 0),
        Err(GenError::UnknownCategory("CUSTOM".to_owned(), 1, 0))
    );
}

#[test]
fn enumerants_of_the_fixed_table() {
    assert_eq!(enumerant_for("CORE", 1, 0), Ok("GDNATIVE_API_TYPES_GDNATIVE_CORE".to_owned()));
    assert_eq!(
        enumerant_for("VIDEODECODER", 0, 1),
        Ok("GDNATIVE_API_TYPES_GDNATIVE_EXT_VIDEODECODER".to_owned())
    );
    assert_eq!(
        enumerant_for("CUSTOM", 2, 3),
        Err(GenError::UnknownCategory("CUSTOM".to_owned(), 2, 3))
    );
}

#[test]
fn generate_one_function_exactly() {
    let m = Manifest {
        primary: leaf(
            "CORE",
            1,
            0,
            vec![func("godot_alloc", "void *", vec![arg("int", "p_bytes")])],
        ),
        extensions: Vec::new(),
    };
    let mut expected = String::new();
    expected.push_str("surface GodotApi {\n");
    expected.push_str(
        "    godot_alloc: fn(bytes: c_int) -> *mut c_void, accessor godot_alloc(bytes);\n",
    );
    expected.push_str("}\n");
    expected.push_str("resolver GodotApi {\n");
    expected.push_str(
        "    table GDNATIVE_API_TYPES_GDNATIVE_CORE 1 0 as godot_gdnative_core_api_struct binds core_1_0;\n",
    );
    expected.push_str("    slot godot_alloc of core_1_0;\n");
    expected.push_str("}\n");
    assert_eq!(generate(&m), Ok(expected));
}

#[test]
fn generate_flattens_chains_and_extensions_in_order() {
    let m = Manifest {
        primary: Category {
            name: Some("core".to_owned()),
            tag: "CORE".to_owned(),
            major: 1,
            minor: 0,
            next: Some(Box::new(leaf("CORE", 1, 1, vec![func("newer", "void", vec![])]))),
            functions: vec![func("older", "void", vec![])],
        },
        extensions: vec![leaf(
            "NATIVESCRIPT",
            1,
            0,
            vec![func("register", "void", vec![arg("void *", "p_handle")])],
        )],
    };
    let mut expected = String::new();
    expected.push_str("surface GodotApi {\n");
    expected.push_str("    older: fn() -> (), accessor older();\n");
    expected.push_str("    newer: fn() -> (), accessor newer();\n");
    expected.push_str("    register: fn(handle: *mut c_void) -> (), accessor register(handle);\n");
    expected.push_str("}\n");
    expected.push_str("resolver GodotApi {\n");
    expected.push_str(
        "    table GDNATIVE_API_TYPES_GDNATIVE_CORE 1 0 as godot_gdnative_core_api_struct binds core_1_0;\n",
    );
    expected.push_str("    slot older of core_1_0;\n");
    expected.push_str(
        "    table GDNATIVE_API_TYPES_GDNATIVE_CORE 1 1 as godot_gdnative_core_1_1_api_struct binds core_1_1;\n",
    );
    expected.push_str("    slot newer of core_1_1;\n");
    expected.push_str(
        "    table GDNATIVE_API_TYPES_GDNATIVE_EXT_NATIVESCRIPT 1 0 as godot_gdnative_ext_nativescript_api_struct binds nativescript_1_0;\n",
    );
    expected.push_str("    slot register of nativescript_1_0;\n");
    expected.push_str("}\n");
    assert_eq!(generate(&m), Ok(expected));
}

fn determinism_manifest() -> Manifest {
    Manifest {
        primary: Category {
            name: None,
            tag: "CORE".to_owned(),
            major: 1,
            minor: 0,
            next: Some(Box::new(leaf("CORE", 1, 1, vec![func("b", "int", vec![])]))),
            functions: vec![func("a", "const char*", vec![arg("double", "p_x")])],
        },
        extensions: vec![leaf("NET", 3, 1, vec![func("c", "size_t", vec![])])],
    }
}

#[test]
fn generate_is_deterministic() {
    let first = generate(&determinism_manifest()).unwrap();
    let second = generate(&determinism_manifest()).unwrap();
    assert_eq!(first, second);
    let third = generate(&determinism_manifest()).unwrap();
    assert_eq!(second, third);
}

#[test]
fn generate_reports_unsupported_type() {
    let m = Manifest {
        primary: leaf("CORE", 1, 0, vec![func("bad", "int***", vec![])]),
        extensions: Vec::new(),
    };
    assert_eq!(generate(&m), Err(GenError::UnsupportedType("int***".to_owned())));
}

#[test]
fn generate_reports_unknown_category() {
    let m = Manifest {
        primary: leaf("CUSTOM", 9, 9, vec![func("fine", "void", vec![])]),
        extensions: Vec::new(),
    };
    assert_eq!(generate(&m), Err(GenError::UnknownCategory("CUSTOM".to_owned(), 9, 9)));
}

#[test]
fn required_list_follows_the_flattened_order() {
    let m = Manifest {
        primary: Category {
            name: None,
            tag: "CORE".to_owned(),
            major: 1,
            minor: 0,
            next: Some(Box::new(leaf("CORE", 1, 1, vec![func("late", "void", vec![])]))),
            functions: vec![func("early", "void", vec![])],
        },
        extensions: vec![leaf("ARVR", 1, 1, vec![func("ext", "void", vec![])])],
    };
    let reqs = required_apis(&m).unwrap();
    assert_eq!(reqs.len(), 3);
    assert_eq!(reqs[0].tag, "CORE");
    assert_eq!((reqs[0].major, reqs[0].minor), (1, 0));
    assert_eq!(reqs[0].table, "godot_gdnative_core_api_struct");
    assert_eq!(reqs[0].functions, vec!["early".to_owned()]);
    assert_eq!(reqs[1].table, "godot_gdnative_core_1_1_api_struct");
    assert_eq!(reqs[1].functions, vec!["late".to_owned()]);
    assert_eq!(reqs[2].tag, "ARVR");
    assert_eq!(reqs[2].functions, vec!["ext".to_owned()]);
}

#[test]
fn required_list_reports_unknown_category() {
    let m = Manifest {
        primary: leaf("MYSTERY", 0, 0, vec![]),
        extensions: Vec::new(),
    };
    assert_eq!(
        required_apis(&m),
        Err(GenError::UnknownCategory("MYSTERY".to_owned(), 0, 0))
    );
}
