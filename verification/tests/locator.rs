use gdnative_surface::{
    find_api, resolve, slot_ptr, HostNode, HostSlot, HostStructure, RequiredApi, RuntimeError,
    SurfaceManager,
};

fn slot(name: &str, ptr: u64) -> HostSlot {
    HostSlot { name: name.to_owned(), ptr }
}

fn node(
    tag: &str,
    major: u32,
    minor: u32,
    slots: Vec<HostSlot>,
    next: Option<Box<HostNode>>,
) -> HostNode {
    HostNode { tag: tag.to_owned(), major, minor, next, slots }
}

fn required(tag: &str, major: u32, minor: u32, table: &str, functions: Vec<&str>) -> RequiredApi {
    RequiredApi {
        tag: tag.to_owned(),
        major,
        minor,
        table: table.to_owned(),
        functions: functions.into_iter().map(|f| f.to_owned()).collect(),
    }
}

/// The synthetic host of the walkthrough scenario: a primary chain
/// core -> a -> b with versions (X,1,0) -> (X,1,1) -> (X,2,0), and one
/// extension chain c -> d with versions (Y,1,0) -> (Y,1,1). Every node
/// carries a sentinel slot naming itself.
fn synthetic_host() -> HostStructure {
    let b = node("X", 2, 0, vec![slot("whoami", 0xb)], None);
    let a = node("X", 1, 1, vec![slot("whoami", 0xa)], Some(Box::new(b)));
    let core = node("X", 1, 0, vec![slot("whoami", 0xc0)], Some(Box::new(a)));
    let d = node("Y", 1, 1, vec![slot("whoami", 0xd)], None);
    let c = node("Y", 1, 0, vec![slot("whoami", 0xcc)], Some(Box::new(d)));
    HostStructure { primary: core, extensions: vec![c] }
}

#[test]
fn find_matches_exactly_one_node_of_the_primary_chain() {
    let h = synthetic_host();
    let hit = find_api(&h, "X", 1, 1).unwrap();
    assert_eq!((hit.major, hit.minor), (1, 1));
    assert_eq!(slot_ptr(hit, "whoami"), Some(0xa));
}

#[test]
fn find_reaches_the_tail_of_an_extension_chain() {
    let h = synthetic_host();
    let hit = find_api(&h, "Y", 1, 1).unwrap();
    assert_eq!((hit.major, hit.minor), (1, 1));
    assert_eq!(slot_ptr(hit, "whoami"), Some(0xd));
}

#[test]
fn find_has_no_compatibility_fallback() {
    let h = synthetic_host();
    assert!(find_api(&h, "X", 3, 0).is_none());
    assert!(find_api(&h, "Y", 2, 0).is_none());
    assert!(find_api(&h, "Z", 1, 0).is_none());
}

#[test]
fn find_prefers_the_primary_chain_over_extensions() {
    let primary = node("X", 1, 0, vec![slot("whoami", 0x1)], None);
    let shadow = node("X", 1, 0, vec![slot("whoami", 0x2)], None);
    let h = HostStructure { primary, extensions: vec![shadow] };
    let hit = find_api(&h, "X", 1, 0).unwrap();
    assert_eq!(slot_ptr(hit, "whoami"), Some(0x1));
}

#[test]
fn find_prefers_the_earlier_node_within_a_chain() {
    let tail = node("X", 1, 0, vec![slot("whoami", 0x2)], None);
    let head = node("X", 1, 0, vec![slot("whoami", 0x1)], Some(Box::new(tail)));
    let h = HostStructure { primary: head, extensions: Vec::new() };
    let hit = find_api(&h, "X", 1, 0).unwrap();
    assert_eq!(slot_ptr(hit, "whoami"), Some(0x1));
}

#[test]
fn find_prefers_the_earlier_extension_head() {
    let primary = node("P", 1, 0, vec![], None);
    let first = node("X", 1, 0, vec![slot("whoami", 0x1)], None);
    let second = node("X", 1, 0, vec![slot("whoami", 0x2)], None);
    let h = HostStructure { primary, extensions: vec![first, second] };
    let hit = find_api(&h, "X", 1, 0).unwrap();
    assert_eq!(slot_ptr(hit, "whoami"), Some(0x1));
}

#[test]
fn resolve_reports_a_triple_present_in_no_chain() {
    let h = synthetic_host();
    let reqs = vec![required("X", 9, 9, "x_table", vec!["whoami"])];
    assert_eq!(
        resolve(&h, &reqs),
        Err(RuntimeError::ApiNotFound("X".to_owned(), 9, 9))
    );
}

#[test]
fn slot_lookup_reads_the_advertised_pointer() {
    let n = node("X", 1, 0, vec![slot("alpha", 7), slot("beta", 0)], None);
    assert_eq!(slot_ptr(&n, "alpha"), Some(7));
    assert_eq!(slot_ptr(&n, "beta"), Some(0));
    assert_eq!(slot_ptr(&n, "gamma"), None);
}

fn populated_host() -> HostStructure {
    let core = node(
        "CORE",
        1,
        0,
        vec![slot("godot_alloc", 0x1111), slot("godot_free", 0x2222)],
        None,
    );
    let ns = node("NATIVESCRIPT", 1, 0, vec![slot("register_class", 0x3333)], None);
    HostStructure { primary: core, extensions: vec![ns] }
}

fn populated_required() -> Vec<RequiredApi> {
    vec![
        required(
            "CORE",
            1,
            0,
            "godot_gdnative_core_api_struct",
            vec!["godot_alloc", "godot_free"],
        ),
        required(
            "NATIVESCRIPT",
            1,
            0,
            "godot_gdnative_ext_nativescript_api_struct",
            vec!["register_class"],
        ),
    ]
}

#[test]
fn resolve_fills_the_whole_surface_and_accessors_forward_to_the_right_pointer() {
    let h = populated_host();
    let surface = resolve(&h, &populated_required()).unwrap();
    assert_eq!(surface.len(), 3);
    assert_eq!(surface.lookup("godot_alloc"), Some(0x1111));
    assert_eq!(surface.lookup("godot_free"), Some(0x2222));
    assert_eq!(surface.lookup("register_class"), Some(0x3333));
    assert_eq!(surface.lookup("absent"), None);
}

#[test]
fn resolve_fails_naming_the_null_slot_and_its_table() {
    let core = node(
        "CORE",
        1,
        0,
        vec![slot("godot_alloc", 0x1111), slot("godot_free", 0)],
        None,
    );
    let h = HostStructure { primary: core, extensions: Vec::new() };
    let reqs = vec![required(
        "CORE",
        1,
        0,
        "godot_gdnative_core_api_struct",
        vec!["godot_alloc", "godot_free"],
    )];
    assert_eq!(
        resolve(&h, &reqs),
        Err(RuntimeError::MissingFunction(
            "godot_gdnative_core_api_struct".to_owned(),
            "godot_free".to_owned(),
        ))
    );
}

#[test]
fn resolve_fails_on_an_absent_slot_as_missing_function() {
    let core = node("CORE", 1, 0, vec![slot("godot_alloc", 0x1111)], None);
    let h = HostStructure { primary: core, extensions: Vec::new() };
    let reqs = vec![required(
        "CORE",
        1,
        0,
        "godot_gdnative_core_api_struct",
        vec!["godot_alloc", "godot_free"],
    )];
    assert_eq!(
        resolve(&h, &reqs),
        Err(RuntimeError::MissingFunction(
            "godot_gdnative_core_api_struct".to_owned(),
            "godot_free".to_owned(),
        ))
    );
}

#[test]
fn manager_holds_the_surface_from_init_to_terminate() {
    let mut manager = SurfaceManager::new();
    assert!(manager.surface().is_none());
    assert!(manager.failure().is_none());
    let h = populated_host();
    let reqs = populated_required();
    assert!(manager.init(&h, &reqs));
    let surface = manager.surface().unwrap();
    assert_eq!(surface.lookup("godot_alloc"), Some(0x1111));
    assert!(manager.failure().is_none());
    manager.terminate();
    assert!(manager.surface().is_none());
}

#[test]
fn manager_keeps_the_fatal_error_of_a_failed_init() {
    let mut manager = SurfaceManager::new();
    let h = populated_host();
    let reqs = vec![required("ARVR", 1, 1, "godot_gdnative_ext_arvr_api_struct", vec![])];
    assert!(!manager.init(&h, &reqs));
    assert!(manager.surface().is_none());
    assert_eq!(
        manager.failure(),
        Some(&RuntimeError::ApiNotFound("ARVR".to_owned(), 1, 1))
    );
    manager.terminate();
    assert!(manager.failure().is_none());
}
