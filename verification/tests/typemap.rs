use gdnative_surface::synth::render_type;
use gdnative_surface::{map_type, BaseType, GenError, PtrShape, TypeDescriptor};

fn desc(shape: PtrShape, base: BaseType) -> TypeDescriptor {
    TypeDescriptor { shape, base }
}

#[test]
fn map_int_is_direct_signed() {
    assert_eq!(map_type("int"), Ok(desc(PtrShape::Direct, BaseType::CInt)));
}

#[test]
fn map_const_char_ptr_is_readonly_pointer_to_char() {
    assert_eq!(map_type("const char*"), Ok(desc(PtrShape::ConstPtr, BaseType::CChar)));
}

#[test]
fn map_void_depth_two_without_const_is_unsupported() {
    assert_eq!(
        map_type("void**"),
        Err(GenError::UnsupportedType("void**".to_owned()))
    );
}

#[test]
fn map_void_is_unit_and_void_ptr_is_opaque() {
    assert_eq!(map_type("void"), Ok(desc(PtrShape::Direct, BaseType::Void)));
    assert_eq!(map_type("void*"), Ok(desc(PtrShape::MutPtr, BaseType::Void)));
    assert_eq!(render_type(&map_type("void").unwrap()), "()");
    assert_eq!(render_type(&map_type("void*").unwrap()), "*mut c_void");
}

#[test]
fn map_depth_two_with_const_is_mut_ptr_to_const_ptr() {
    assert_eq!(map_type("const void**"), Ok(desc(PtrShape::MutConstPtr, BaseType::Void)));
    assert_eq!(render_type(&map_type("const void**").unwrap()), "*mut *const c_void");
}

#[test]
fn map_depth_three_is_unsupported() {
    assert_eq!(
        map_type("int***"),
        Err(GenError::UnsupportedType("int***".to_owned()))
    );
}

#[test]
fn map_empty_and_marker_only_strings_are_unsupported() {
    assert_eq!(map_type(""), Err(GenError::UnsupportedType("".to_owned())));
    assert_eq!(map_type("*"), Err(GenError::UnsupportedType("*".to_owned())));
    assert_eq!(map_type("  "), Err(GenError::UnsupportedType("  ".to_owned())));
}

#[test]
fn map_stray_characters_are_unsupported() {
    assert_eq!(
        map_type("int(void)"),
        Err(GenError::UnsupportedType("int(void)".to_owned()))
    );
}

#[test]
fn map_signed_char_keeps_interior_space() {
    assert_eq!(map_type("signed char"), Ok(desc(PtrShape::Direct, BaseType::CSChar)));
}

#[test]
fn map_marker_separated_by_space_still_counts() {
    assert_eq!(map_type("const char *"), Ok(desc(PtrShape::ConstPtr, BaseType::CChar)));
    assert_eq!(map_type("godot_object *"), Ok(desc(
        PtrShape::MutPtr,
        BaseType::Named("godot_object".to_owned()),
    )));
}

#[test]
fn map_fixed_width_aliases() {
    assert_eq!(map_type("bool"), Ok(desc(PtrShape::Direct, BaseType::Bool)));
    assert_eq!(map_type("uint8_t"), Ok(desc(PtrShape::Direct, BaseType::UInt8)));
    assert_eq!(map_type("uint32_t"), Ok(desc(PtrShape::Direct, BaseType::UInt32)));
    assert_eq!(map_type("uint64_t"), Ok(desc(PtrShape::Direct, BaseType::UInt64)));
    assert_eq!(map_type("int64_t"), Ok(desc(PtrShape::Direct, BaseType::Int64)));
    assert_eq!(map_type("double"), Ok(desc(PtrShape::Direct, BaseType::CDouble)));
    assert_eq!(map_type("char"), Ok(desc(PtrShape::Direct, BaseType::CChar)));
    assert_eq!(map_type("size_t"), Ok(desc(PtrShape::Direct, BaseType::USize)));
}

#[test]
fn map_foreign_runtime_handles() {
    assert_eq!(map_type("JNIEnv"), Ok(desc(PtrShape::Direct, BaseType::JniEnv)));
    assert_eq!(map_type("jobject"), Ok(desc(PtrShape::Direct, BaseType::JObject)));
    assert_eq!(render_type(&map_type("jobject").unwrap()), "*mut c_void");
    assert_eq!(render_type(&map_type("JNIEnv *").unwrap()), "*mut c_void");
}

#[test]
fn map_unknown_identifier_is_opaque_named() {
    assert_eq!(
        map_type("godot_variant"),
        Ok(desc(PtrShape::Direct, BaseType::Named("godot_variant".to_owned())))
    );
    assert_eq!(
        map_type("const godot_variant*"),
        Ok(desc(PtrShape::ConstPtr, BaseType::Named("godot_variant".to_owned())))
    );
}

#[test]
fn map_const_at_depth_zero_is_ignored() {
    assert_eq!(map_type("const int"), Ok(desc(PtrShape::Direct, BaseType::CInt)));
}

#[test]
fn depth_of_each_shape() {
    assert_eq!(PtrShape::Direct.depth(), 0);
    assert_eq!(PtrShape::ConstPtr.depth(), 1);
    assert_eq!(PtrShape::MutPtr.depth(), 1);
    assert_eq!(PtrShape::MutConstPtr.depth(), 2);
}
