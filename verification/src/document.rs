//! The structured description the manifest model is parsed from: a plain
//! tree of null, flag, number, text, list and field-table values, and the
//! parsing pass that turns it into the typed entities — failing with
//! [`GenError::MalformedManifest`] naming the offending field wherever a
//! required field is absent or of the wrong kind.

use vstd::prelude::*;

use crate::errors::{GenError, GenErrorModel};
use crate::manifest::{
    cat_model, man_model, Argument, ArgumentModel, Category, CategoryModel, Function,
    FunctionModel, Manifest, ManifestModel,
};

verus! {

/// One named field of a document table.
#[derive(Debug, PartialEq, Eq)]
pub struct DocField {
    pub key: String,
    pub value: DocValue,
}

/// One node of the structured description.
#[derive(Debug, PartialEq, Eq)]
pub enum DocValue {
    Null,
    Flag(bool),
    Number(u64),
    Text(String),
    Items(Vec<DocValue>),
    Fields(Vec<DocField>),
}

/// The index of the first field named `key`, from `i` on; the table's
/// length where none is.
pub open spec fn field_index(fs: Seq<DocField>, i: int, key: Seq<char>) -> int
    decreases fs.len() - i,
{
    if i < 0 || i >= fs.len() {
        fs.len() as int
    } else if fs[i].key@ == key {
        i
    } else {
        field_index(fs, i + 1, key)
    }
}

/// [`field_index`] stays within `[i, fs.len()]`.
pub proof fn lemma_field_index_range(fs: Seq<DocField>, i: int, key: Seq<char>)
    requires
        0 <= i <= fs.len(),
    ensures
        i <= field_index(fs, i, key) <= fs.len(),
    decreases fs.len() - i,
{
    if i < fs.len() && fs[i].key@ != key {
        lemma_field_index_range(fs, i + 1, key);
    }
}

/// The value of the first field named `key`, if the table holds one.
pub open spec fn field_of(fs: Seq<DocField>, key: Seq<char>) -> Option<DocValue> {
    if 0 <= field_index(fs, 0, key) < fs.len() {
        Some(fs[field_index(fs, 0, key)].value)
    } else {
        None
    }
}

/// Finds the first field named `key`, matching [`field_index`].
pub fn field_pos(fs: &Vec<DocField>, key: &str) -> (r: usize)
    ensures
        r as int == field_index(fs@, 0, key@),
        r <= fs@.len(),
{
    let mut i: usize = 0;
    while i < fs.len()
        invariant
            i <= fs@.len(),
            field_index(fs@, 0, key@) == field_index(fs@, i as int, key@),
        decreases fs.len() - i,
    {
        if crate::text::str_eq(fs[i].key.as_str(), key) {
            return i;
        }
        i += 1;
    }
    fs.len()
}

/// What parsing an argument table yields: the argument, or the name of
/// the offending field.
pub open spec fn parse_argument_spec(d: DocValue) -> Result<ArgumentModel, Seq<char>> {
    match d {
        DocValue::Fields(fs) => match field_of(fs@, "type"@) {
            Some(DocValue::Text(t)) => match field_of(fs@, "name"@) {
                Some(DocValue::Text(n)) => Ok(ArgumentModel { raw_type: t@, name: n@ }),
                _ => Err("argument.name"@),
            },
            _ => Err("argument.type"@),
        },
        _ => Err("argument"@),
    }
}

/// What parsing a list of argument tables from index `i` on yields.
pub open spec fn parse_arguments_spec(items: Seq<DocValue>, i: int) -> Result<
    Seq<ArgumentModel>,
    Seq<char>,
>
    decreases items.len() - i,
{
    if i < 0 || i >= items.len() {
        Ok(Seq::<ArgumentModel>::empty())
    } else {
        match parse_argument_spec(items[i]) {
            Err(e) => Err(e),
            Ok(a) => match parse_arguments_spec(items, i + 1) {
                Err(e) => Err(e),
                Ok(rest) => Ok(seq![a] + rest),
            },
        }
    }
}

/// What parsing a function table yields: name, raw return type and
/// arguments, or the name of the offending field.
pub open spec fn parse_function_spec(d: DocValue) -> Result<FunctionModel, Seq<char>> {
    match d {
        DocValue::Fields(fs) => match field_of(fs@, "name"@) {
            Some(DocValue::Text(n)) => match field_of(fs@, "returnType"@) {
                Some(DocValue::Text(rt)) => match field_of(fs@, "arguments"@) {
                    Some(DocValue::Items(items)) => match parse_arguments_spec(items@, 0) {
                        Err(e) => Err(e),
                        Ok(args) => Ok(
                            FunctionModel { name: n@, return_type: rt@, arguments: args },
                        ),
                    },
                    _ => Err("function.arguments"@),
                },
                _ => Err("function.returnType"@),
            },
            _ => Err("function.name"@),
        },
        _ => Err("function"@),
    }
}

/// What parsing a list of function tables from index `i` on yields.
pub open spec fn parse_functions_spec(items: Seq<DocValue>, i: int) -> Result<
    Seq<FunctionModel>,
    Seq<char>,
>
    decreases items.len() - i,
{
    if i < 0 || i >= items.len() {
        Ok(Seq::<FunctionModel>::empty())
    } else {
        match parse_function_spec(items[i]) {
            Err(e) => Err(e),
            Ok(f) => match parse_functions_spec(items, i + 1) {
                Err(e) => Err(e),
                Ok(rest) => Ok(seq![f] + rest),
            },
        }
    }
}

/// What parsing a category table yields: tag, version, optional name,
/// optional linked next revision and functions — or the name of the first
/// offending field. Fields are checked in this order: tag, version.major,
/// version.minor, name, next, functions.
pub open spec fn parse_category_spec(d: DocValue) -> Result<CategoryModel, Seq<char>>
    decreases d, 1int,
{
    match d {
        DocValue::Fields(fs) => match field_of(fs@, "tag"@) {
            Some(DocValue::Text(tag)) => match field_of(fs@, "version"@) {
                Some(DocValue::Fields(vs)) => match field_of(vs@, "major"@) {
                    Some(DocValue::Number(major)) => if major > u32::MAX as u64 {
                        Err("version.major"@)
                    } else {
                        match field_of(vs@, "minor"@) {
                            Some(DocValue::Number(minor)) => if minor > u32::MAX as u64 {
                                Err("version.minor"@)
                            } else {
                                parse_category_tail(fs, tag@, major as u32, minor as u32)
                            },
                            _ => Err("version.minor"@),
                        }
                    },
                    _ => Err("version.major"@),
                },
                _ => Err("category.version"@),
            },
            _ => Err("category.tag"@),
        },
        _ => Err("category"@),
    }
}

/// The name, next and functions fields of a category table, once tag and
/// version are in hand.
pub open spec fn parse_category_tail(
    fs: Vec<DocField>,
    tag: Seq<char>,
    major: u32,
    minor: u32,
) -> Result<CategoryModel, Seq<char>>
    decreases fs, 0int,
    via parse_category_tail_decreases
{
    let name = match field_of(fs@, "name"@) {
        None => Ok(Option::<Seq<char>>::None),
        Some(DocValue::Null) => Ok(Option::<Seq<char>>::None),
        Some(DocValue::Text(s)) => Ok(Some(s@)),
        Some(_) => Err("category.name"@),
    };
    match name {
        Err(e) => Err(e),
        Ok(name) => {
            let ni = field_index(fs@, 0, "next"@);
            let next = if ni == fs@.len() || fs@[ni].value == DocValue::Null {
                Ok(Option::<Box<CategoryModel>>::None)
            } else {
                match parse_category_spec(fs@[ni].value) {
                    Err(e) => Err(e),
                    Ok(c) => Ok(Some(Box::new(c))),
                }
            };
            match next {
                Err(e) => Err(e),
                Ok(next) => match field_of(fs@, "functions"@) {
                    Some(DocValue::Items(items)) => match parse_functions_spec(items@, 0) {
                        Err(e) => Err(e),
                        Ok(functions) => Ok(
                            CategoryModel { name, tag, major, minor, next, functions },
                        ),
                    },
                    _ => Err("category.functions"@),
                },
            }
        },
    }
}

#[via_fn]
proof fn parse_category_tail_decreases(fs: Vec<DocField>, tag: Seq<char>, major: u32, minor: u32) {
    let ni = field_index(fs@, 0, "next"@);
    lemma_field_index_range(fs@, 0, "next"@);
    if ni < fs@.len() {
        assert(decreases_to!(fs => fs[ni]));
        assert(decreases_to!(fs => fs@[ni].value));
    }
}

/// What parsing a list of category tables from index `i` on yields.
pub open spec fn parse_categories_spec(items: Seq<DocValue>, i: int) -> Result<
    Seq<CategoryModel>,
    Seq<char>,
>
    decreases items.len() - i,
{
    if i < 0 || i >= items.len() {
        Ok(Seq::<CategoryModel>::empty())
    } else {
        match parse_category_spec(items[i]) {
            Err(e) => Err(e),
            Ok(c) => match parse_categories_spec(items, i + 1) {
                Err(e) => Err(e),
                Ok(rest) => Ok(seq![c] + rest),
            },
        }
    }
}

fn parse_argument(d: &DocValue) -> (r: Result<Argument, GenError>)
    ensures
        match r {
            Ok(a) => parse_argument_spec(*d) == Ok::<ArgumentModel, Seq<char>>(a@),
            Err(e) => parse_argument_spec(*d) is Err && e@ == GenErrorModel::MalformedManifest(
                parse_argument_spec(*d)->Err_0,
            ),
        },
{
    match d {
        DocValue::Fields(fs) => {
            let ti = field_pos(fs, "type");
            if ti >= fs.len() {
                return Err(GenError::MalformedManifest("argument.type".to_owned()));
            }
            match &fs[ti].value {
                DocValue::Text(t) => {
                    let ni = field_pos(fs, "name");
                    if ni >= fs.len() {
                        return Err(GenError::MalformedManifest("argument.name".to_owned()));
                    }
                    match &fs[ni].value {
                        DocValue::Text(n) => Ok(
                            Argument { raw_type: t.clone(), name: n.clone() },
                        ),
                        _ => Err(GenError::MalformedManifest("argument.name".to_owned())),
                    }
                },
                _ => Err(GenError::MalformedManifest("argument.type".to_owned())),
            }
        },
        _ => Err(GenError::MalformedManifest("argument".to_owned())),
    }
}

fn parse_arguments(items: &Vec<DocValue>, i: usize) -> (r: Result<Vec<Argument>, GenError>)
    requires
        i <= items.len(),
    ensures
        match r {
            Ok(v) => parse_arguments_spec(items@, i as int) == Ok::<Seq<ArgumentModel>, Seq<char>>(
                v@.map_values(|a: Argument| a@),
            ),
            Err(e) => parse_arguments_spec(items@, i as int) is Err && e@
                == GenErrorModel::MalformedManifest(parse_arguments_spec(items@, i as int)->Err_0),
        },
    decreases items.len() - i,
{
    if i >= items.len() {
        let out: Vec<Argument> = Vec::new();
        proof {
            assert(out@.map_values(|a: Argument| a@) =~= Seq::<ArgumentModel>::empty());
        }
        Ok(out)
    } else {
        match parse_argument(&items[i]) {
            Err(e) => Err(e),
            Ok(a) => match parse_arguments(items, i + 1) {
                Err(e) => Err(e),
                Ok(rest) => {
                    let ghost rest0 = rest@;
                    let ghost a0 = a@;
                    let mut out: Vec<Argument> = Vec::new();
                    out.push(a);
                    let mut rest = rest;
                    out.append(&mut rest);
                    proof {
                        assert(out@.map_values(|x: Argument| x@) =~= seq![a0] + rest0.map_values(
                            |x: Argument| x@,
                        ));
                    }
                    Ok(out)
                },
            },
        }
    }
}

fn parse_function(d: &DocValue) -> (r: Result<Function, GenError>)
    ensures
        match r {
            Ok(f) => parse_function_spec(*d) == Ok::<FunctionModel, Seq<char>>(f@),
            Err(e) => parse_function_spec(*d) is Err && e@ == GenErrorModel::MalformedManifest(
                parse_function_spec(*d)->Err_0,
            ),
        },
{
    match d {
        DocValue::Fields(fs) => {
            let ni = field_pos(fs, "name");
            if ni >= fs.len() {
                return Err(GenError::MalformedManifest("function.name".to_owned()));
            }
            match &fs[ni].value {
                DocValue::Text(n) => {
                    let ri = field_pos(fs, "returnType");
                    if ri >= fs.len() {
                        return Err(GenError::MalformedManifest("function.returnType".to_owned()));
                    }
                    match &fs[ri].value {
                        DocValue::Text(rt) => {
                            let ai = field_pos(fs, "arguments");
                            if ai >= fs.len() {
                                return Err(
                                    GenError::MalformedManifest("function.arguments".to_owned()),
                                );
                            }
                            match &fs[ai].value {
                                DocValue::Items(items) => match parse_arguments(items, 0) {
                                    Err(e) => Err(e),
                                    Ok(arguments) => {
                                        let f = Function {
                                            name: n.clone(),
                                            return_type: rt.clone(),
                                            arguments,
                                        };
                                        proof {
                                            assert(f@ =~= parse_function_spec(*d)->Ok_0);
                                        }
                                        Ok(f)
                                    },
                                },
                                _ => Err(
                                    GenError::MalformedManifest("function.arguments".to_owned()),
                                ),
                            }
                        },
                        _ => Err(GenError::MalformedManifest("function.returnType".to_owned())),
                    }
                },
                _ => Err(GenError::MalformedManifest("function.name".to_owned())),
            }
        },
        _ => Err(GenError::MalformedManifest("function".to_owned())),
    }
}

fn parse_functions(items: &Vec<DocValue>, i: usize) -> (r: Result<Vec<Function>, GenError>)
    requires
        i <= items.len(),
    ensures
        match r {
            Ok(v) => parse_functions_spec(items@, i as int) == Ok::<Seq<FunctionModel>, Seq<char>>(
                v@.map_values(|f: Function| f@),
            ),
            Err(e) => parse_functions_spec(items@, i as int) is Err && e@
                == GenErrorModel::MalformedManifest(parse_functions_spec(items@, i as int)->Err_0),
        },
    decreases items.len() - i,
{
    if i >= items.len() {
        let out: Vec<Function> = Vec::new();
        proof {
            assert(out@.map_values(|f: Function| f@) =~= Seq::<FunctionModel>::empty());
        }
        Ok(out)
    } else {
        match parse_function(&items[i]) {
            Err(e) => Err(e),
            Ok(f) => match parse_functions(items, i + 1) {
                Err(e) => Err(e),
                Ok(rest) => {
                    let ghost rest0 = rest@;
                    let ghost f0 = f@;
                    let mut out: Vec<Function> = Vec::new();
                    out.push(f);
                    let mut rest = rest;
                    out.append(&mut rest);
                    proof {
                        assert(out@.map_values(|x: Function| x@) =~= seq![f0] + rest0.map_values(
                            |x: Function| x@,
                        ));
                    }
                    Ok(out)
                },
            },
        }
    }
}

/// Parses one category table, matching [`parse_category_spec`]: the typed
/// category on a well-shaped table, and otherwise
/// [`GenError::MalformedManifest`] naming the first offending field.
pub fn parse_category(d: &DocValue) -> (r: Result<Category, GenError>)
    ensures
        match r {
            Ok(c) => parse_category_spec(*d) == Ok::<CategoryModel, Seq<char>>(cat_model(c)),
            Err(e) => parse_category_spec(*d) is Err && e@ == GenErrorModel::MalformedManifest(
                parse_category_spec(*d)->Err_0,
            ),
        },
    decreases *d,
{
    match d {
        DocValue::Fields(fs) => {
            let ti = field_pos(fs, "tag");
            if ti >= fs.len() {
                return Err(GenError::MalformedManifest("category.tag".to_owned()));
            }
            let tag = match &fs[ti].value {
                DocValue::Text(t) => t.clone(),
                _ => {
                    return Err(GenError::MalformedManifest("category.tag".to_owned()));
                },
            };
            let vi = field_pos(fs, "version");
            if vi >= fs.len() {
                return Err(GenError::MalformedManifest("category.version".to_owned()));
            }
            let (major, minor) = match &fs[vi].value {
                DocValue::Fields(vs) => {
                    let mi = field_pos(vs, "major");
                    if mi >= vs.len() {
                        return Err(GenError::MalformedManifest("version.major".to_owned()));
                    }
                    let major = match &vs[mi].value {
                        DocValue::Number(n) => {
                            if *n > u32::MAX as u64 {
                                return Err(
                                    GenError::MalformedManifest("version.major".to_owned()),
                                );
                            }
                            *n as u32
                        },
                        _ => {
                            return Err(GenError::MalformedManifest("version.major".to_owned()));
                        },
                    };
                    let ni = field_pos(vs, "minor");
                    if ni >= vs.len() {
                        return Err(GenError::MalformedManifest("version.minor".to_owned()));
                    }
                    let minor = match &vs[ni].value {
                        DocValue::Number(n) => {
                            if *n > u32::MAX as u64 {
                                return Err(
                                    GenError::MalformedManifest("version.minor".to_owned()),
                                );
                            }
                            *n as u32
                        },
                        _ => {
                            return Err(GenError::MalformedManifest("version.minor".to_owned()));
                        },
                    };
                    (major, minor)
                },
                _ => {
                    return Err(GenError::MalformedManifest("category.version".to_owned()));
                },
            };
            let pi = field_pos(fs, "name");
            let name: Option<String> = if pi >= fs.len() {
                None
            } else {
                match &fs[pi].value {
                    DocValue::Null => None,
                    DocValue::Text(s) => Some(s.clone()),
                    _ => {
                        return Err(GenError::MalformedManifest("category.name".to_owned()));
                    },
                }
            };
            let ni = field_pos(fs, "next");
            let next: Option<Box<Category>> = if ni >= fs.len() {
                None
            } else if matches!(&fs[ni].value, DocValue::Null) {
                None
            } else {
                proof {
                    assert(decreases_to!(*fs => fs[ni as int]));
                    assert(decreases_to!(*d => fs@[ni as int].value));
                }
                match parse_category(&fs[ni].value) {
                    Err(e) => {
                        return Err(e);
                    },
                    Ok(sub) => Some(Box::new(sub)),
                }
            };
            let fi = field_pos(fs, "functions");
            if fi >= fs.len() {
                return Err(GenError::MalformedManifest("category.functions".to_owned()));
            }
            match &fs[fi].value {
                DocValue::Items(items) => match parse_functions(items, 0) {
                    Err(e) => Err(e),
                    Ok(functions) => {
                        let c = Category { name, tag, major, minor, next, functions };
                        proof {
                            assert(cat_model(c) =~= parse_category_spec(*d)->Ok_0);
                        }
                        Ok(c)
                    },
                },
                _ => Err(GenError::MalformedManifest("category.functions".to_owned())),
            }
        },
        _ => Err(GenError::MalformedManifest("category".to_owned())),
    }
}

fn parse_categories(items: &Vec<DocValue>, i: usize) -> (r: Result<Vec<Category>, GenError>)
    requires
        i <= items.len(),
    ensures
        match r {
            Ok(v) => parse_categories_spec(items@, i as int) == Ok::<
                Seq<CategoryModel>,
                Seq<char>,
            >(v@.map_values(|c: Category| cat_model(c))),
            Err(e) => parse_categories_spec(items@, i as int) is Err && e@
                == GenErrorModel::MalformedManifest(parse_categories_spec(items@, i as int)->Err_0),
        },
    decreases items.len() - i,
{
    if i >= items.len() {
        let out: Vec<Category> = Vec::new();
        proof {
            assert(out@.map_values(|c: Category| cat_model(c)) =~= Seq::<CategoryModel>::empty());
        }
        Ok(out)
    } else {
        match parse_category(&items[i]) {
            Err(e) => Err(e),
            Ok(c) => match parse_categories(items, i + 1) {
                Err(e) => Err(e),
                Ok(rest) => {
                    let ghost rest0 = rest@;
                    let ghost c0 = cat_model(c);
                    let mut out: Vec<Category> = Vec::new();
                    out.push(c);
                    let mut rest = rest;
                    out.append(&mut rest);
                    proof {
                        assert(out@.map_values(|x: Category| cat_model(x)) =~= seq![c0]
                            + rest0.map_values(|x: Category| cat_model(x)));
                    }
                    Ok(out)
                },
            },
        }
    }
}

/// Parses the whole structured description, matching
/// [`parse_manifest_spec`]: the typed manifest on a well-shaped
/// description, and otherwise [`GenError::MalformedManifest`] naming the
/// first offending field.
pub fn parse_manifest(d: &DocValue) -> (r: Result<Manifest, GenError>)
    ensures
        match r {
            Ok(m) => parse_manifest_spec(*d) == Ok::<ManifestModel, Seq<char>>(man_model(m)),
            Err(e) => parse_manifest_spec(*d) is Err && e@ == GenErrorModel::MalformedManifest(
                parse_manifest_spec(*d)->Err_0,
            ),
        },
{
    match d {
        DocValue::Fields(fs) => {
            let pi = field_pos(fs, "primary");
            if pi >= fs.len() {
                return Err(GenError::MalformedManifest("manifest.primary".to_owned()));
            }
            match parse_category(&fs[pi].value) {
                Err(e) => Err(e),
                Ok(primary) => {
                    let ei = field_pos(fs, "extensions");
                    if ei >= fs.len() {
                        return Err(GenError::MalformedManifest("manifest.extensions".to_owned()));
                    }
                    match &fs[ei].value {
                        DocValue::Items(items) => match parse_categories(items, 0) {
                            Err(e) => Err(e),
                            Ok(extensions) => {
                                let m = Manifest { primary, extensions };
                                proof {
                                    assert(man_model(m).extensions =~= parse_manifest_spec(
                                        *d,
                                    )->Ok_0.extensions);
                                    assert(man_model(m) =~= parse_manifest_spec(*d)->Ok_0);
                                }
                                Ok(m)
                            },
                        },
                        _ => Err(GenError::MalformedManifest("manifest.extensions".to_owned())),
                    }
                },
            }
        },
        _ => Err(GenError::MalformedManifest("manifest".to_owned())),
    }
}

/// What parsing the whole description yields: the manifest, or the name
/// of the first offending field. The root must be a table with a
/// `primary` category and an `extensions` list.
pub open spec fn parse_manifest_spec(d: DocValue) -> Result<ManifestModel, Seq<char>> {
    match d {
        DocValue::Fields(fs) => match field_of(fs@, "primary"@) {
            Some(p) => match parse_category_spec(p) {
                Err(e) => Err(e),
                Ok(primary) => match field_of(fs@, "extensions"@) {
                    Some(DocValue::Items(items)) => match parse_categories_spec(items@, 0) {
                        Err(e) => Err(e),
                        Ok(extensions) => Ok(ManifestModel { primary, extensions }),
                    },
                    _ => Err("manifest.extensions"@),
                },
            },
            None => Err("manifest.primary"@),
        },
        _ => Err("manifest"@),
    }
}

} // verus!
