//! The surface synthesizer: flattens all categories and revisions into one
//! ordered function list and emits, deterministically, a typed field
//! declaration and a forwarding-accessor line per function plus a resolver
//! block naming every required (category, major, minor) revision and every
//! function slot the runtime locator must fill.

use vstd::prelude::*;

use crate::errors::{GenError, GenErrorModel};
use crate::manifest::{
    Argument, ArgumentModel, Function, FunctionModel, Manifest, Revision, RevisionModel,
    manifest_revisions,
};
use crate::text::{dec_str, lower_str, spec_dec, spec_lower, str_eq, str_starts_with};
use crate::typemap::{map_type, map_type_ok, BaseModel, BaseType, PtrShape, TypeDescriptor, TypeModel};

verus! {

/// The declared argument name with every leading host-origin `p_` marker
/// removed.
pub open spec fn spec_stripped(s: Seq<char>) -> Seq<char>
    decreases s.len(),
{
    if s.len() >= 2 && s.subrange(0, 2) == "p_"@ {
        spec_stripped(s.skip(2))
    } else {
        s
    }
}

/// The generated argument name: the host-origin marker is stripped, and a
/// name that would then collide with the reserved self keyword gets a
/// disambiguating underscore.
pub open spec fn spec_renamed(s: Seq<char>) -> Seq<char> {
    if spec_stripped(s) == "self"@ {
        "self_"@
    } else {
        spec_stripped(s)
    }
}

/// Law: a generated argument name never collides with the reserved self
/// keyword, whatever the declared name was.
pub proof fn lemma_renamed_never_reserved(s: Seq<char>)
    ensures
        spec_renamed(s) != "self"@,
{
    reveal_strlit("self");
    reveal_strlit("self_");
    if spec_stripped(s) == "self"@ {
        assert("self_"@.len() == 5);
        assert("self"@.len() == 4);
    }
}

/// Renames one declared argument name, matching [`spec_renamed`].
pub fn renamed_arg(name: &str) -> (r: String)
    ensures
        r@ == spec_renamed(name@),
{
    proof {
        reveal_strlit("p_");
    }
    let mut cur: &str = name;
    loop
        invariant
            "p_"@.len() == 2,
            spec_stripped(name@) == spec_stripped(cur@),
        ensures
            spec_stripped(cur@) == cur@,
        decreases cur@.len(),
    {
        if !str_starts_with(cur, "p_") {
            break;
        }
        let next = cur.substring_char(2, cur.unicode_len());
        proof {
            assert(next@ =~= cur@.skip(2));
        }
        cur = next;
    }
    if str_eq(cur, "self") {
        "self_".to_owned()
    } else {
        cur.to_owned()
    }
}

/// The struct name the host declares for a given category revision, from
/// the fixed tag/version table; nothing for a pair outside the table.
pub open spec fn spec_struct_name(tag: Seq<char>, major: u32, minor: u32) -> Option<Seq<char>> {
    if tag == "CORE"@ && major == 1 && minor == 0 {
        Some("godot_gdnative_core_api_struct"@)
    } else if tag == "CORE"@ {
        Some(
            "godot_gdnative_core_"@ + spec_dec(major as nat) + "_"@ + spec_dec(minor as nat)
                + "_api_struct"@,
        )
    } else if tag == "NATIVESCRIPT"@ && major == 1 && minor == 0 {
        Some("godot_gdnative_ext_nativescript_api_struct"@)
    } else if tag == "NATIVESCRIPT"@ {
        Some(
            "godot_gdnative_ext_nativescript_"@ + spec_dec(major as nat) + "_"@ + spec_dec(
                minor as nat,
            ) + "_api_struct"@,
        )
    } else if tag == "PLUGINSCRIPT"@ && major == 1 && minor == 0 {
        Some("godot_gdnative_ext_pluginscript_api_struct"@)
    } else if tag == "ANDROID"@ && major == 1 && minor == 0 {
        Some("godot_gdnative_ext_android_api_struct"@)
    } else if tag == "ARVR"@ && major == 1 && minor == 1 {
        Some("godot_gdnative_ext_arvr_api_struct"@)
    } else if tag == "VIDEODECODER"@ && major == 0 && minor == 1 {
        Some("godot_gdnative_ext_videodecoder_api_struct"@)
    } else if tag == "NET"@ && major == 3 && minor == 1 {
        Some("godot_gdnative_ext_net_api_struct"@)
    } else {
        None
    }
}

/// The enumerant the host publishes for a category tag; nothing for a tag
/// outside the fixed table.
pub open spec fn spec_enumerant(tag: Seq<char>) -> Option<Seq<char>> {
    if tag == "CORE"@ {
        Some("GDNATIVE_API_TYPES_GDNATIVE_CORE"@)
    } else if tag == "NATIVESCRIPT"@ {
        Some("GDNATIVE_API_TYPES_GDNATIVE_EXT_NATIVESCRIPT"@)
    } else if tag == "PLUGINSCRIPT"@ {
        Some("GDNATIVE_API_TYPES_GDNATIVE_EXT_PLUGINSCRIPT"@)
    } else if tag == "ANDROID"@ {
        Some("GDNATIVE_API_TYPES_GDNATIVE_EXT_ANDROID"@)
    } else if tag == "ARVR"@ {
        Some("GDNATIVE_API_TYPES_GDNATIVE_EXT_ARVR"@)
    } else if tag == "VIDEODECODER"@ {
        Some("GDNATIVE_API_TYPES_GDNATIVE_EXT_VIDEODECODER"@)
    } else if tag == "NET"@ {
        Some("GDNATIVE_API_TYPES_GDNATIVE_EXT_NET"@)
    } else {
        None
    }
}

/// The local binding name of a revision inside the resolver block:
/// lowercased tag, major and minor, joined by underscores.
pub open spec fn spec_local_name(tag: Seq<char>, major: u32, minor: u32) -> Seq<char> {
    spec_lower(tag) + "_"@ + spec_dec(major as nat) + "_"@ + spec_dec(minor as nat)
}

/// Looks the struct name up, matching [`spec_struct_name`]; a pair outside
/// the table is an [`GenError::UnknownCategory`] failure naming it.
pub fn struct_name_for(tag: &str, major: u32, minor: u32) -> (r: Result<String, GenError>)
    ensures
        match r {
            Ok(s) => spec_struct_name(tag@, major, minor) == Some(s@),
            Err(e) => spec_struct_name(tag@, major, minor) is None && e@
                == GenErrorModel::UnknownCategory(tag@, major, minor),
        },
{
    if str_eq(tag, "CORE") {
        if major == 1 && minor == 0 {
            Ok("godot_gdnative_core_api_struct".to_owned())
        } else {
            let mut s = "godot_gdnative_core_".to_owned();
            s.append(dec_str(major).as_str());
            s.append("_");
            s.append(dec_str(minor).as_str());
            s.append("_api_struct");
            Ok(s)
        }
    } else if str_eq(tag, "NATIVESCRIPT") {
        if major == 1 && minor == 0 {
            Ok("godot_gdnative_ext_nativescript_api_struct".to_owned())
        } else {
            let mut s = "godot_gdnative_ext_nativescript_".to_owned();
            s.append(dec_str(major).as_str());
            s.append("_");
            s.append(dec_str(minor).as_str());
            s.append("_api_struct");
            Ok(s)
        }
    } else if str_eq(tag, "PLUGINSCRIPT") && major == 1 && minor == 0 {
        Ok("godot_gdnative_ext_pluginscript_api_struct".to_owned())
    } else if str_eq(tag, "ANDROID") && major == 1 && minor == 0 {
        Ok("godot_gdnative_ext_android_api_struct".to_owned())
    } else if str_eq(tag, "ARVR") && major == 1 && minor == 1 {
        Ok("godot_gdnative_ext_arvr_api_struct".to_owned())
    } else if str_eq(tag, "VIDEODECODER") && major == 0 && minor == 1 {
        Ok("godot_gdnative_ext_videodecoder_api_struct".to_owned())
    } else if str_eq(tag, "NET") && major == 3 && minor == 1 {
        Ok("godot_gdnative_ext_net_api_struct".to_owned())
    } else {
        Err(GenError::UnknownCategory(tag.to_owned(), major, minor))
    }
}

/// Looks the enumerant up, matching [`spec_enumerant`]; a tag outside the
/// table is an [`GenError::UnknownCategory`] failure naming the pair the
/// tag came with.
pub fn enumerant_for(tag: &str, major: u32, minor: u32) -> (r: Result<String, GenError>)
    ensures
        match r {
            Ok(s) => spec_enumerant(tag@) == Some(s@),
            Err(e) => spec_enumerant(tag@) is None && e@ == GenErrorModel::UnknownCategory(
                tag@,
                major,
                minor,
            ),
        },
{
    if str_eq(tag, "CORE") {
        Ok("GDNATIVE_API_TYPES_GDNATIVE_CORE".to_owned())
    } else if str_eq(tag, "NATIVESCRIPT") {
        Ok("GDNATIVE_API_TYPES_GDNATIVE_EXT_NATIVESCRIPT".to_owned())
    } else if str_eq(tag, "PLUGINSCRIPT") {
        Ok("GDNATIVE_API_TYPES_GDNATIVE_EXT_PLUGINSCRIPT".to_owned())
    } else if str_eq(tag, "ANDROID") {
        Ok("GDNATIVE_API_TYPES_GDNATIVE_EXT_ANDROID".to_owned())
    } else if str_eq(tag, "ARVR") {
        Ok("GDNATIVE_API_TYPES_GDNATIVE_EXT_ARVR".to_owned())
    } else if str_eq(tag, "VIDEODECODER") {
        Ok("GDNATIVE_API_TYPES_GDNATIVE_EXT_VIDEODECODER".to_owned())
    } else if str_eq(tag, "NET") {
        Ok("GDNATIVE_API_TYPES_GDNATIVE_EXT_NET".to_owned())
    } else {
        Err(GenError::UnknownCategory(tag.to_owned(), major, minor))
    }
}

/// Builds the local binding name, matching [`spec_local_name`].
pub fn local_name(tag: &str, major: u32, minor: u32) -> (r: String)
    ensures
        r@ == spec_local_name(tag@, major, minor),
{
    let mut s = lower_str(tag);
    s.append("_");
    s.append(dec_str(major).as_str());
    s.append("_");
    s.append(dec_str(minor).as_str());
    s
}

/// The text of a pointer shape in a rendered type.
pub open spec fn spec_shape_text(shape: PtrShape) -> Seq<char> {
    match shape {
        PtrShape::Direct => ""@,
        PtrShape::ConstPtr => "*const "@,
        PtrShape::MutPtr => "*mut "@,
        PtrShape::MutConstPtr => "*mut *const "@,
    }
}

/// The text of a resolved base type. `void` renders as the unit type when
/// it stands alone and as the opaque byte type behind a pointer; the
/// foreign runtime's environment and object handles render opaque.
pub open spec fn spec_base_text(base: BaseModel, shape: PtrShape) -> Seq<char> {
    match base {
        BaseModel::Void => if shape == PtrShape::Direct {
            "()"@
        } else {
            "c_void"@
        },
        BaseModel::Bool => "bool"@,
        BaseModel::UInt8 => "u8"@,
        BaseModel::UInt32 => "u32"@,
        BaseModel::UInt64 => "u64"@,
        BaseModel::Int64 => "i64"@,
        BaseModel::CInt => "c_int"@,
        BaseModel::CDouble => "c_double"@,
        BaseModel::CChar => "c_char"@,
        BaseModel::CSChar => "c_schar"@,
        BaseModel::USize => "usize"@,
        BaseModel::JniEnv => "c_void"@,
        BaseModel::JObject => "*mut c_void"@,
        BaseModel::Named(s) => s,
    }
}

/// The full rendered text of a mapped type.
pub open spec fn spec_type_text(t: TypeModel) -> Seq<char> {
    spec_shape_text(t.shape) + spec_base_text(t.base, t.shape)
}

/// Renders a mapped type, matching [`spec_type_text`].
pub fn render_type(d: &TypeDescriptor) -> (r: String)
    ensures
        r@ == spec_type_text(d@),
{
    let mut s = match d.shape {
        PtrShape::Direct => "".to_owned(),
        PtrShape::ConstPtr => "*const ".to_owned(),
        PtrShape::MutPtr => "*mut ".to_owned(),
        PtrShape::MutConstPtr => "*mut *const ".to_owned(),
    };
    match &d.base {
        BaseType::Void => {
            if matches!(d.shape, PtrShape::Direct) {
                s.append("()");
            } else {
                s.append("c_void");
            }
        },
        BaseType::Bool => s.append("bool"),
        BaseType::UInt8 => s.append("u8"),
        BaseType::UInt32 => s.append("u32"),
        BaseType::UInt64 => s.append("u64"),
        BaseType::Int64 => s.append("i64"),
        BaseType::CInt => s.append("c_int"),
        BaseType::CDouble => s.append("c_double"),
        BaseType::CChar => s.append("c_char"),
        BaseType::CSChar => s.append("c_schar"),
        BaseType::USize => s.append("usize"),
        BaseType::JniEnv => s.append("c_void"),
        BaseType::JObject => s.append("*mut c_void"),
        BaseType::Named(n) => s.append(n.as_str()),
    }
    s
}

/// The mathematical value of a generated text result.
pub open spec fn gen_text(r: Result<String, GenError>) -> Result<Seq<char>, GenErrorModel> {
    match r {
        Ok(s) => Ok(s@),
        Err(e) => Err(e@),
    }
}

/// One argument of a field declaration: the renamed argument and its
/// rendered mapped type, or the mapper's failure.
pub open spec fn spec_arg_decl(a: ArgumentModel) -> Result<Seq<char>, GenErrorModel> {
    match map_type_ok(a.raw_type) {
        Some(t) => Ok(spec_renamed(a.name) + ": "@ + spec_type_text(t)),
        None => Err(GenErrorModel::UnsupportedType(a.raw_type)),
    }
}

/// The argument list from index `i` on, comma-separated; the first
/// failure, if any, wins.
pub open spec fn spec_args_decl(args: Seq<ArgumentModel>, i: int) -> Result<
    Seq<char>,
    GenErrorModel,
>
    decreases args.len() - i,
{
    if i < 0 || i >= args.len() {
        Ok(Seq::<char>::empty())
    } else {
        match spec_arg_decl(args[i]) {
            Err(e) => Err(e),
            Ok(t) => match spec_args_decl(args, i + 1) {
                Err(e) => Err(e),
                Ok(rest) => Ok(
                    if i + 1 == args.len() {
                        t
                    } else {
                        t + ", "@ + rest
                    },
                ),
            },
        }
    }
}

/// The renamed argument names from index `i` on, comma-separated — the
/// list a forwarding accessor passes through unchanged.
pub open spec fn spec_argnames(args: Seq<ArgumentModel>, i: int) -> Seq<char>
    decreases args.len() - i,
{
    if i < 0 || i >= args.len() {
        Seq::<char>::empty()
    } else if i + 1 == args.len() {
        spec_renamed(args[i].name)
    } else {
        spec_renamed(args[i].name) + ", "@ + spec_argnames(args, i + 1)
    }
}

/// One generated line per function: the typed callable field and the
/// forwarding accessor, which calls through with the same arguments in the
/// same order. Argument failures come before a return-type failure.
pub open spec fn spec_func_line(f: FunctionModel) -> Result<Seq<char>, GenErrorModel> {
    match spec_args_decl(f.arguments, 0) {
        Err(e) => Err(e),
        Ok(args) => match map_type_ok(f.return_type) {
            None => Err(GenErrorModel::UnsupportedType(f.return_type)),
            Some(ret) => Ok(
                "    "@ + f.name + ": fn("@ + args + ") -> "@ + spec_type_text(ret)
                    + ", accessor "@ + f.name + "("@ + spec_argnames(f.arguments, 0) + ");\n"@,
            ),
        },
    }
}

/// The function lines of one revision from index `i` on.
pub open spec fn spec_func_lines(fs: Seq<FunctionModel>, i: int) -> Result<Seq<char>, GenErrorModel>
    decreases fs.len() - i,
{
    if i < 0 || i >= fs.len() {
        Ok(Seq::<char>::empty())
    } else {
        match spec_func_line(fs[i]) {
            Err(e) => Err(e),
            Ok(t) => match spec_func_lines(fs, i + 1) {
                Err(e) => Err(e),
                Ok(rest) => Ok(t + rest),
            },
        }
    }
}

/// The declaration lines of all revisions from index `i` on, in flattened
/// order.
pub open spec fn spec_decl_lines(revs: Seq<RevisionModel>, i: int) -> Result<
    Seq<char>,
    GenErrorModel,
>
    decreases revs.len() - i,
{
    if i < 0 || i >= revs.len() {
        Ok(Seq::<char>::empty())
    } else {
        match spec_func_lines(revs[i].functions, 0) {
            Err(e) => Err(e),
            Ok(t) => match spec_decl_lines(revs, i + 1) {
                Err(e) => Err(e),
                Ok(rest) => Ok(t + rest),
            },
        }
    }
}

/// One resolver line per revision: the published enumerant, the required
/// (major, minor) pair, the host's struct name and the local binding name.
pub open spec fn spec_table_line(r: RevisionModel) -> Result<Seq<char>, GenErrorModel> {
    match spec_enumerant(r.tag) {
        None => Err(GenErrorModel::UnknownCategory(r.tag, r.major, r.minor)),
        Some(en) => match spec_struct_name(r.tag, r.major, r.minor) {
            None => Err(GenErrorModel::UnknownCategory(r.tag, r.major, r.minor)),
            Some(sn) => Ok(
                "    table "@ + en + " "@ + spec_dec(r.major as nat) + " "@ + spec_dec(
                    r.minor as nat,
                ) + " as "@ + sn + " binds "@ + spec_local_name(r.tag, r.major, r.minor) + ";\n"@,
            ),
        },
    }
}

/// One resolver line per function slot of a revision, from index `i` on.
pub open spec fn spec_slot_lines(fs: Seq<FunctionModel>, i: int, local: Seq<char>) -> Seq<char>
    decreases fs.len() - i,
{
    if i < 0 || i >= fs.len() {
        Seq::<char>::empty()
    } else {
        "    slot "@ + fs[i].name + " of "@ + local + ";\n"@ + spec_slot_lines(fs, i + 1, local)
    }
}

/// The resolver block of one revision: its table line, then one slot line
/// per function.
pub open spec fn spec_rev_block(r: RevisionModel) -> Result<Seq<char>, GenErrorModel> {
    match spec_table_line(r) {
        Err(e) => Err(e),
        Ok(t) => Ok(t + spec_slot_lines(r.functions, 0, spec_local_name(r.tag, r.major, r.minor))),
    }
}

/// The resolver blocks of all revisions from index `i` on.
pub open spec fn spec_resolver_lines(revs: Seq<RevisionModel>, i: int) -> Result<
    Seq<char>,
    GenErrorModel,
>
    decreases revs.len() - i,
{
    if i < 0 || i >= revs.len() {
        Ok(Seq::<char>::empty())
    } else {
        match spec_rev_block(revs[i]) {
            Err(e) => Err(e),
            Ok(t) => match spec_resolver_lines(revs, i + 1) {
                Err(e) => Err(e),
                Ok(rest) => Ok(t + rest),
            },
        }
    }
}

/// The whole generated artifact over a flattened revision list: the typed
/// declaration section, then the resolver section. A pure function of the
/// list — generation has no other input.
pub open spec fn spec_generated(revs: Seq<RevisionModel>) -> Result<Seq<char>, GenErrorModel> {
    match spec_decl_lines(revs, 0) {
        Err(e) => Err(e),
        Ok(decls) => match spec_resolver_lines(revs, 0) {
            Err(e) => Err(e),
            Ok(res) => Ok(
                "surface GodotApi {\n"@ + decls + "}\nresolver GodotApi {\n"@ + res + "}\n"@,
            ),
        },
    }
}

/// Whether every type a function names lies in the supported grammar.
pub open spec fn func_mappable(f: FunctionModel) -> bool {
    &&& forall|k: int|
        0 <= k < f.arguments.len() ==> map_type_ok(
            (#[trigger] f.arguments[k]).raw_type,
        ) is Some
    &&& map_type_ok(f.return_type) is Some
}

/// Whether every function of a revision is mappable.
pub open spec fn rev_mappable(r: RevisionModel) -> bool {
    forall|j: int| 0 <= j < r.functions.len() ==> func_mappable(#[trigger] r.functions[j])
}

/// Whether a revision's tag and version lie in the fixed naming tables.
pub open spec fn rev_nameable(r: RevisionModel) -> bool {
    spec_enumerant(r.tag) is Some && spec_struct_name(r.tag, r.major, r.minor) is Some
}

proof fn lemma_args_decl_success(args: Seq<ArgumentModel>, i: int)
    requires
        0 <= i <= args.len(),
    ensures
        spec_args_decl(args, i) is Ok <==> forall|k: int|
            i <= k < args.len() ==> map_type_ok((#[trigger] args[k]).raw_type) is Some,
    decreases args.len() - i,
{
    if i < args.len() {
        lemma_args_decl_success(args, i + 1);
    }
}

proof fn lemma_func_lines_success(fs: Seq<FunctionModel>, i: int)
    requires
        0 <= i <= fs.len(),
    ensures
        spec_func_lines(fs, i) is Ok <==> forall|j: int|
            i <= j < fs.len() ==> func_mappable(#[trigger] fs[j]),
    decreases fs.len() - i,
{
    if i < fs.len() {
        lemma_args_decl_success(fs[i].arguments, 0);
        lemma_func_lines_success(fs, i + 1);
    }
}

proof fn lemma_decl_lines_success(revs: Seq<RevisionModel>, i: int)
    requires
        0 <= i <= revs.len(),
    ensures
        spec_decl_lines(revs, i) is Ok <==> forall|j: int|
            i <= j < revs.len() ==> rev_mappable(#[trigger] revs[j]),
    decreases revs.len() - i,
{
    if i < revs.len() {
        lemma_func_lines_success(revs[i].functions, 0);
        lemma_decl_lines_success(revs, i + 1);
    }
}

proof fn lemma_resolver_lines_success(revs: Seq<RevisionModel>, i: int)
    requires
        0 <= i <= revs.len(),
    ensures
        spec_resolver_lines(revs, i) is Ok <==> forall|j: int|
            i <= j < revs.len() ==> rev_nameable(#[trigger] revs[j]),
    decreases revs.len() - i,
{
    if i < revs.len() {
        lemma_resolver_lines_success(revs, i + 1);
    }
}

/// Law: generation succeeds exactly where every raw type of every
/// revision lies in the supported grammar and every revision's tag and
/// version lie in the fixed naming tables; any gap at all aborts the
/// whole generation.
pub proof fn lemma_generate_success(revs: Seq<RevisionModel>)
    ensures
        spec_generated(revs) is Ok <==> forall|j: int|
            0 <= j < revs.len() ==> rev_mappable(#[trigger] revs[j]) && rev_nameable(revs[j]),
{
    lemma_decl_lines_success(revs, 0);
    lemma_resolver_lines_success(revs, 0);
}

/// Law: generation is deterministic. The artifact is a function of the
/// manifest alone, so two generation results over the same manifest are
/// identical, character for character — there is no hidden ordering or
/// other nondeterminism to observe.
pub proof fn lemma_generation_deterministic(
    m: Manifest,
    r1: Result<String, GenError>,
    r2: Result<String, GenError>,
)
    requires
        gen_text(r1) == spec_generated(manifest_revisions(m)),
        gen_text(r2) == spec_generated(manifest_revisions(m)),
    ensures
        gen_text(r1) == gen_text(r2),
{
}

fn arg_decl(a: &Argument) -> (r: Result<String, GenError>)
    ensures
        gen_text(r) == spec_arg_decl(a@),
{
    match map_type(a.raw_type.as_str()) {
        Err(e) => Err(e),
        Ok(d) => {
            let mut s = renamed_arg(a.name.as_str());
            s.append(": ");
            s.append(render_type(&d).as_str());
            Ok(s)
        },
    }
}

fn args_decl(args: &Vec<Argument>, i: usize) -> (r: Result<String, GenError>)
    requires
        i <= args.len(),
    ensures
        gen_text(r) == spec_args_decl(args@.map_values(|a: Argument| a@), i as int),
    decreases args.len() - i,
{
    let ghost model = args@.map_values(|a: Argument| a@);
    if i >= args.len() {
        Ok(String::new())
    } else {
        proof {
            assert(model[i as int] == args@[i as int]@);
        }
        match arg_decl(&args[i]) {
            Err(e) => Err(e),
            Ok(t) => match args_decl(args, i + 1) {
                Err(e) => Err(e),
                Ok(rest) => {
                    if i + 1 == args.len() {
                        Ok(t)
                    } else {
                        let mut s = t;
                        s.append(", ");
                        s.append(rest.as_str());
                        Ok(s)
                    }
                },
            },
        }
    }
}

fn argnames(args: &Vec<Argument>, i: usize) -> (r: String)
    requires
        i <= args.len(),
    ensures
        r@ == spec_argnames(args@.map_values(|a: Argument| a@), i as int),
    decreases args.len() - i,
{
    let ghost model = args@.map_values(|a: Argument| a@);
    if i >= args.len() {
        String::new()
    } else {
        proof {
            assert(model[i as int] == args@[i as int]@);
        }
        let mut s = renamed_arg(args[i].name.as_str());
        if i + 1 < args.len() {
            s.append(", ");
            s.append(argnames(args, i + 1).as_str());
        }
        s
    }
}

fn func_line(f: &Function) -> (r: Result<String, GenError>)
    ensures
        gen_text(r) == spec_func_line(f@),
{
    match args_decl(&f.arguments, 0) {
        Err(e) => Err(e),
        Ok(args) => match map_type(f.return_type.as_str()) {
            Err(e) => Err(e),
            Ok(ret) => {
                let mut s = "    ".to_owned();
                s.append(f.name.as_str());
                s.append(": fn(");
                s.append(args.as_str());
                s.append(") -> ");
                s.append(render_type(&ret).as_str());
                s.append(", accessor ");
                s.append(f.name.as_str());
                s.append("(");
                s.append(argnames(&f.arguments, 0).as_str());
                s.append(");\n");
                Ok(s)
            },
        },
    }
}

fn func_lines(fs: &Vec<Function>, i: usize) -> (r: Result<String, GenError>)
    requires
        i <= fs.len(),
    ensures
        gen_text(r) == spec_func_lines(fs@.map_values(|f: Function| f@), i as int),
    decreases fs.len() - i,
{
    let ghost model = fs@.map_values(|f: Function| f@);
    if i >= fs.len() {
        Ok(String::new())
    } else {
        proof {
            assert(model[i as int] == fs@[i as int]@);
        }
        match func_line(&fs[i]) {
            Err(e) => Err(e),
            Ok(t) => match func_lines(fs, i + 1) {
                Err(e) => Err(e),
                Ok(rest) => {
                    let mut s = t;
                    s.append(rest.as_str());
                    Ok(s)
                },
            },
        }
    }
}

fn decl_lines(revs: &Vec<Revision>, i: usize) -> (r: Result<String, GenError>)
    requires
        i <= revs.len(),
    ensures
        gen_text(r) == spec_decl_lines(revs@.map_values(|x: Revision| x@), i as int),
    decreases revs.len() - i,
{
    let ghost model = revs@.map_values(|x: Revision| x@);
    if i >= revs.len() {
        Ok(String::new())
    } else {
        proof {
            assert(model[i as int] == revs@[i as int]@);
        }
        match func_lines(&revs[i].functions, 0) {
            Err(e) => Err(e),
            Ok(t) => match decl_lines(revs, i + 1) {
                Err(e) => Err(e),
                Ok(rest) => {
                    let mut s = t;
                    s.append(rest.as_str());
                    Ok(s)
                },
            },
        }
    }
}

fn table_line(rev: &Revision) -> (r: Result<String, GenError>)
    ensures
        gen_text(r) == spec_table_line(rev@),
{
    match enumerant_for(rev.tag.as_str(), rev.major, rev.minor) {
        Err(e) => Err(e),
        Ok(en) => match struct_name_for(rev.tag.as_str(), rev.major, rev.minor) {
            Err(e) => Err(e),
            Ok(sn) => {
                let mut s = "    table ".to_owned();
                s.append(en.as_str());
                s.append(" ");
                s.append(dec_str(rev.major).as_str());
                s.append(" ");
                s.append(dec_str(rev.minor).as_str());
                s.append(" as ");
                s.append(sn.as_str());
                s.append(" binds ");
                s.append(local_name(rev.tag.as_str(), rev.major, rev.minor).as_str());
                s.append(";\n");
                Ok(s)
            },
        },
    }
}

fn slot_lines(fs: &Vec<Function>, i: usize, local: &str) -> (r: String)
    requires
        i <= fs.len(),
    ensures
        r@ == spec_slot_lines(fs@.map_values(|f: Function| f@), i as int, local@),
    decreases fs.len() - i,
{
    let ghost model = fs@.map_values(|f: Function| f@);
    if i >= fs.len() {
        String::new()
    } else {
        proof {
            assert(model[i as int] == fs@[i as int]@);
        }
        let mut s = "    slot ".to_owned();
        s.append(fs[i].name.as_str());
        s.append(" of ");
        s.append(local);
        s.append(";\n");
        s.append(slot_lines(fs, i + 1, local).as_str());
        s
    }
}

fn rev_block(rev: &Revision) -> (r: Result<String, GenError>)
    ensures
        gen_text(r) == spec_rev_block(rev@),
{
    match table_line(rev) {
        Err(e) => Err(e),
        Ok(t) => {
            let local = local_name(rev.tag.as_str(), rev.major, rev.minor);
            let mut s = t;
            s.append(slot_lines(&rev.functions, 0, local.as_str()).as_str());
            Ok(s)
        },
    }
}

fn resolver_lines(revs: &Vec<Revision>, i: usize) -> (r: Result<String, GenError>)
    requires
        i <= revs.len(),
    ensures
        gen_text(r) == spec_resolver_lines(revs@.map_values(|x: Revision| x@), i as int),
    decreases revs.len() - i,
{
    let ghost model = revs@.map_values(|x: Revision| x@);
    if i >= revs.len() {
        Ok(String::new())
    } else {
        proof {
            assert(model[i as int] == revs@[i as int]@);
        }
        match rev_block(&revs[i]) {
            Err(e) => Err(e),
            Ok(t) => match resolver_lines(revs, i + 1) {
                Err(e) => Err(e),
                Ok(rest) => {
                    let mut s = t;
                    s.append(rest.as_str());
                    Ok(s)
                },
            },
        }
    }
}

/// One required revision, as the runtime locator consumes it: the
/// (category tag, major, minor) triple taken 1:1 from the flattened
/// revision list, the host's struct name for naming the table in
/// failures, and the names of the function slots the revision must fill,
/// in declaration order.
#[derive(Debug, PartialEq, Eq)]
pub struct RequiredApi {
    pub tag: String,
    pub major: u32,
    pub minor: u32,
    pub table: String,
    pub functions: Vec<String>,
}

/// The mathematical value of a [`RequiredApi`].
#[verifier::ext_equal]
pub struct RequiredApiModel {
    pub tag: Seq<char>,
    pub major: u32,
    pub minor: u32,
    pub table: Seq<char>,
    pub functions: Seq<Seq<char>>,
}

impl View for RequiredApi {
    type V = RequiredApiModel;

    open spec fn view(&self) -> RequiredApiModel {
        RequiredApiModel {
            tag: self.tag@,
            major: self.major,
            minor: self.minor,
            table: self.table@,
            functions: self.functions@.map_values(|s: String| s@),
        }
    }
}

/// The requirement one revision contributes, or the naming-table failure.
pub open spec fn spec_required_one(r: RevisionModel) -> Result<RequiredApiModel, GenErrorModel> {
    match spec_struct_name(r.tag, r.major, r.minor) {
        None => Err(GenErrorModel::UnknownCategory(r.tag, r.major, r.minor)),
        Some(table) => Ok(
            RequiredApiModel {
                tag: r.tag,
                major: r.major,
                minor: r.minor,
                table,
                functions: r.functions.map_values(|f: FunctionModel| f.name),
            },
        ),
    }
}

/// The requirements of all revisions from index `i` on, in flattened
/// order; the first failure wins.
pub open spec fn spec_required(revs: Seq<RevisionModel>, i: int) -> Result<
    Seq<RequiredApiModel>,
    GenErrorModel,
>
    decreases revs.len() - i,
{
    if i < 0 || i >= revs.len() {
        Ok(Seq::<RequiredApiModel>::empty())
    } else {
        match spec_required_one(revs[i]) {
            Err(e) => Err(e),
            Ok(x) => match spec_required(revs, i + 1) {
                Err(e) => Err(e),
                Ok(rest) => Ok(seq![x] + rest),
            },
        }
    }
}

/// Law: the required list is taken 1:1 from the flattened revision list —
/// one entry per revision, in order, carrying exactly that revision's
/// tag, major, minor and function names.
pub proof fn lemma_required_one_to_one(revs: Seq<RevisionModel>, i: int, rs: Seq<RequiredApiModel>)
    requires
        0 <= i <= revs.len(),
        spec_required(revs, i) == Ok::<Seq<RequiredApiModel>, GenErrorModel>(rs),
    ensures
        rs.len() == revs.len() - i,
        forall|j: int|
            0 <= j < rs.len() ==> {
                &&& (#[trigger] rs[j]).tag == revs[i + j].tag
                &&& rs[j].major == revs[i + j].major
                &&& rs[j].minor == revs[i + j].minor
                &&& rs[j].functions == revs[i + j].functions.map_values(
                    |f: FunctionModel| f.name,
                )
            },
    decreases revs.len() - i,
{
    if i < revs.len() {
        let one = spec_required_one(revs[i]);
        let rest = spec_required(revs, i + 1);
        assert(one is Ok && rest is Ok);
        lemma_required_one_to_one(revs, i + 1, rest->Ok_0);
        assert(rs == seq![one->Ok_0] + rest->Ok_0);
        assert forall|j: int| 0 <= j < rs.len() implies {
            &&& (#[trigger] rs[j]).tag == revs[i + j].tag
            &&& rs[j].major == revs[i + j].major
            &&& rs[j].minor == revs[i + j].minor
            &&& rs[j].functions == revs[i + j].functions.map_values(|f: FunctionModel| f.name)
        } by {
            if j > 0 {
                assert(rs[j] == rest->Ok_0[j - 1]);
            }
        }
    }
}

/// The mathematical value of a required-list result.
pub open spec fn req_list(r: Result<Vec<RequiredApi>, GenError>) -> Result<
    Seq<RequiredApiModel>,
    GenErrorModel,
> {
    match r {
        Ok(v) => Ok(v@.map_values(|x: RequiredApi| x@)),
        Err(e) => Err(e@),
    }
}

fn required_one(rev: &Revision) -> (r: Result<RequiredApi, GenError>)
    ensures
        match r {
            Ok(x) => spec_required_one(rev@) == Ok::<RequiredApiModel, GenErrorModel>(x@),
            Err(e) => spec_required_one(rev@) == Err::<RequiredApiModel, GenErrorModel>(e@),
        },
{
    match struct_name_for(rev.tag.as_str(), rev.major, rev.minor) {
        Err(e) => Err(e),
        Ok(table) => {
            let mut functions: Vec<String> = Vec::new();
            let mut i: usize = 0;
            while i < rev.functions.len()
                invariant
                    i <= rev.functions.len(),
                    functions@.len() == i,
                    forall|j: int| 0 <= j < i ==> functions@[j]@ == rev.functions@[j]@.name,
                decreases rev.functions.len() - i,
            {
                functions.push(rev.functions[i].name.clone());
                i += 1;
            }
            let x = RequiredApi { tag: rev.tag.clone(), major: rev.major, minor: rev.minor, table, functions };
            proof {
                assert(x@.functions =~= rev@.functions.map_values(|f: FunctionModel| f.name));
                assert(x@ =~= spec_required_one(rev@)->Ok_0);
            }
            Ok(x)
        },
    }
}

fn required_from(revs: &Vec<Revision>, i: usize) -> (r: Result<Vec<RequiredApi>, GenError>)
    requires
        i <= revs.len(),
    ensures
        req_list(r) == spec_required(revs@.map_values(|x: Revision| x@), i as int),
    decreases revs.len() - i,
{
    let ghost model = revs@.map_values(|x: Revision| x@);
    if i >= revs.len() {
        let out: Vec<RequiredApi> = Vec::new();
        proof {
            assert(out@.map_values(|x: RequiredApi| x@) =~= Seq::<RequiredApiModel>::empty());
        }
        Ok(out)
    } else {
        proof {
            assert(model[i as int] == revs@[i as int]@);
        }
        match required_one(&revs[i]) {
            Err(e) => Err(e),
            Ok(x) => match required_from(revs, i + 1) {
                Err(e) => Err(e),
                Ok(rest) => {
                    let ghost rest0 = rest@;
                    let mut out: Vec<RequiredApi> = Vec::new();
                    out.push(x);
                    let mut rest = rest;
                    out.append(&mut rest);
                    proof {
                        assert(out@ =~= seq![x] + rest0);
                        assert(out@.map_values(|y: RequiredApi| y@) =~= seq![x@]
                            + rest0.map_values(|y: RequiredApi| y@));
                    }
                    Ok(out)
                },
            },
        }
    }
}

/// The list of required (category tag, major, minor) revisions of a
/// manifest, taken 1:1 from the flattened revision list, each with its
/// table name and its required slot names — what the runtime locator must
/// resolve in full before any surface exists.
pub fn required_apis(m: &Manifest) -> (r: Result<Vec<RequiredApi>, GenError>)
    ensures
        req_list(r) == spec_required(manifest_revisions(*m), 0),
{
    let revs = m.flatten();
    required_from(&revs, 0)
}

/// Generates the whole artifact for a manifest: the typed declaration of
/// every exposed function in canonical flattened order, then the resolver
/// block naming every required revision and slot — exactly
/// [`spec_generated`] over the flattened revision list, so equal manifests
/// generate identical text.
pub fn generate(m: &Manifest) -> (r: Result<String, GenError>)
    ensures
        gen_text(r) == spec_generated(manifest_revisions(*m)),
{
    let revs = m.flatten();
    match decl_lines(&revs, 0) {
        Err(e) => Err(e),
        Ok(decls) => match resolver_lines(&revs, 0) {
            Err(e) => Err(e),
            Ok(res) => {
                let mut s = "surface GodotApi {\n".to_owned();
                s.append(decls.as_str());
                s.append("}\nresolver GodotApi {\n");
                s.append(res.as_str());
                s.append("}\n");
                Ok(s)
            },
        },
    }
}

} // verus!
