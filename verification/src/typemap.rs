//! The type mapper: turns a raw C type string into a typed descriptor —
//! pointer shape (depth and const qualification) plus a resolved primitive
//! or opaque named base type.
//!
//! Supported grammar: an optional leading `const ` qualifier, then a base
//! identifier (a nonempty run of word and space characters), then a
//! trailing run of pointer markers `*` possibly mixed with spaces. The
//! pointer-marker count is the depth; only depths 0–2 are supported, and
//! depth 2 only together with the const qualifier. Anything else is an
//! [`GenError::UnsupportedType`] failure naming the raw string.

use vstd::prelude::*;

use crate::errors::{GenError, GenErrorModel};
use crate::text::{spec_starts_with, str_eq, str_starts_with};

verus! {

/// The pointer shape of a descriptor: every supported depth/const
/// combination.
#[derive(Debug, Clone, Copy, PartialEq, Eq, Structural)]
pub enum PtrShape {
    /// Depth 0: the value itself; a const qualifier is ignored here.
    Direct,
    /// Depth 1 with const: a read-only pointer to the base.
    ConstPtr,
    /// Depth 1 without const: a mutable pointer to the base.
    MutPtr,
    /// Depth 2 with const: a mutable pointer to a read-only pointer to the
    /// base — the only supported depth-2 combination.
    MutConstPtr,
}

impl PtrShape {
    /// The pointer depth of the shape.
    pub open spec fn spec_depth(self) -> u32 {
        match self {
            PtrShape::Direct => 0,
            PtrShape::ConstPtr => 1,
            PtrShape::MutPtr => 1,
            PtrShape::MutConstPtr => 2,
        }
    }

    /// The pointer depth of the shape.
    #[verifier::when_used_as_spec(spec_depth)]
    pub fn depth(self) -> (r: u32)
        ensures
            r == self.spec_depth(),
    {
        match self {
            PtrShape::Direct => 0,
            PtrShape::ConstPtr => 1,
            PtrShape::MutPtr => 1,
            PtrShape::MutConstPtr => 2,
        }
    }
}

/// The resolved base of a descriptor: the fixed alias table of the host's
/// description format, or an opaque named type.
#[derive(Debug, PartialEq, Eq)]
pub enum BaseType {
    /// `void`: the unit type at depth 0, an opaque byte behind a pointer.
    Void,
    Bool,
    UInt8,
    UInt32,
    UInt64,
    Int64,
    /// The platform `int`.
    CInt,
    CDouble,
    CChar,
    CSChar,
    USize,
    /// The foreign runtime's environment handle, passed through as opaque.
    JniEnv,
    /// The foreign runtime's object handle: itself an opaque pointer.
    JObject,
    /// Any identifier outside the alias table: an already-declared opaque
    /// named type, accepted as-is.
    Named(String),
}

/// The mathematical value of a [`BaseType`].
#[verifier::ext_equal]
pub enum BaseModel {
    Void,
    Bool,
    UInt8,
    UInt32,
    UInt64,
    Int64,
    CInt,
    CDouble,
    CChar,
    CSChar,
    USize,
    JniEnv,
    JObject,
    Named(Seq<char>),
}

impl View for BaseType {
    type V = BaseModel;

    open spec fn view(&self) -> BaseModel {
        match self {
            BaseType::Void => BaseModel::Void,
            BaseType::Bool => BaseModel::Bool,
            BaseType::UInt8 => BaseModel::UInt8,
            BaseType::UInt32 => BaseModel::UInt32,
            BaseType::UInt64 => BaseModel::UInt64,
            BaseType::Int64 => BaseModel::Int64,
            BaseType::CInt => BaseModel::CInt,
            BaseType::CDouble => BaseModel::CDouble,
            BaseType::CChar => BaseModel::CChar,
            BaseType::CSChar => BaseModel::CSChar,
            BaseType::USize => BaseModel::USize,
            BaseType::JniEnv => BaseModel::JniEnv,
            BaseType::JObject => BaseModel::JObject,
            BaseType::Named(s) => BaseModel::Named(s@),
        }
    }
}

/// A fully mapped type: pointer shape plus resolved base.
#[derive(Debug, PartialEq, Eq)]
pub struct TypeDescriptor {
    pub shape: PtrShape,
    pub base: BaseType,
}

/// The mathematical value of a [`TypeDescriptor`].
#[verifier::ext_equal]
pub struct TypeModel {
    pub shape: PtrShape,
    pub base: BaseModel,
}

impl View for TypeDescriptor {
    type V = TypeModel;

    open spec fn view(&self) -> TypeModel {
        TypeModel { shape: self.shape, base: self.base@ }
    }
}

/// A word character of the base-identifier grammar.
pub open spec fn is_word_char(c: char) -> bool {
    ('a' <= c && c <= 'z') || ('A' <= c && c <= 'Z') || ('0' <= c && c <= '9') || c == '_'
}

/// A character the base identifier may contain.
pub open spec fn is_base_char(c: char) -> bool {
    is_word_char(c) || c == ' '
}

/// A character the trailing pointer-marker run may contain.
pub open spec fn is_tail_char(c: char) -> bool {
    c == ' ' || c == '*'
}

/// Whether the raw string carries the leading const qualifier.
pub open spec fn has_const_prefix(s: Seq<char>) -> bool {
    spec_starts_with(s, "const "@)
}

/// The raw string with the const qualifier, if any, removed.
pub open spec fn after_const(s: Seq<char>) -> Seq<char> {
    if has_const_prefix(s) {
        s.skip(6)
    } else {
        s
    }
}

/// `s` with its leading run of spaces removed.
pub open spec fn strip_leading_spaces(s: Seq<char>) -> Seq<char>
    decreases s.len(),
{
    if s.len() > 0 && s[0] == ' ' {
        strip_leading_spaces(s.drop_first())
    } else {
        s
    }
}

/// The start of the trailing pointer-marker run of `s`: the least index
/// from which every character is a space or `*`.
pub open spec fn tail_start(s: Seq<char>) -> int
    decreases s.len(),
{
    if s.len() > 0 && is_tail_char(s[s.len() - 1]) {
        tail_start(s.drop_last())
    } else {
        s.len() as int
    }
}

/// How many pointer markers `s` holds.
pub open spec fn star_count(s: Seq<char>) -> nat
    decreases s.len(),
{
    if s.len() == 0 {
        0
    } else {
        star_count(s.drop_last()) + if s.last() == '*' {
            1nat
        } else {
            0nat
        }
    }
}

/// The fixed alias table: `void`, `bool`, the fixed-width integers, the
/// platform `int`, `double`, the char types, `size_t`, and the two
/// special-cased foreign-runtime types; every other identifier is an
/// opaque named type.
pub open spec fn resolve_base(b: Seq<char>) -> BaseModel {
    if b == "void"@ {
        BaseModel::Void
    } else if b == "bool"@ {
        BaseModel::Bool
    } else if b == "uint8_t"@ {
        BaseModel::UInt8
    } else if b == "uint32_t"@ {
        BaseModel::UInt32
    } else if b == "uint64_t"@ {
        BaseModel::UInt64
    } else if b == "int64_t"@ {
        BaseModel::Int64
    } else if b == "int"@ {
        BaseModel::CInt
    } else if b == "double"@ {
        BaseModel::CDouble
    } else if b == "char"@ {
        BaseModel::CChar
    } else if b == "signed char"@ {
        BaseModel::CSChar
    } else if b == "size_t"@ {
        BaseModel::USize
    } else if b == "JNIEnv"@ {
        BaseModel::JniEnv
    } else if b == "jobject"@ {
        BaseModel::JObject
    } else {
        BaseModel::Named(b)
    }
}

/// What the type mapper yields on `s`: the descriptor, or nothing where
/// `s` lies outside the supported grammar.
pub open spec fn map_type_ok(s: Seq<char>) -> Option<TypeModel> {
    let body = strip_leading_spaces(after_const(s));
    let j = tail_start(body);
    let base = resolve_base(body.take(j));
    let depth = star_count(body);
    if j == 0 || !(forall|k: int| 0 <= k < j ==> is_base_char(body[k])) {
        None
    } else if depth == 0 {
        Some(TypeModel { shape: PtrShape::Direct, base })
    } else if depth == 1 {
        Some(
            TypeModel {
                shape: if has_const_prefix(s) {
                    PtrShape::ConstPtr
                } else {
                    PtrShape::MutPtr
                },
                base,
            },
        )
    } else if depth == 2 && has_const_prefix(s) {
        Some(TypeModel { shape: PtrShape::MutConstPtr, base })
    } else {
        None
    }
}

fn base_char(c: char) -> (r: bool)
    ensures
        r == is_base_char(c),
{
    ('a' <= c && c <= 'z') || ('A' <= c && c <= 'Z') || ('0' <= c && c <= '9') || c == '_' || c
        == ' '
}

fn tail_char(c: char) -> (r: bool)
    ensures
        r == is_tail_char(c),
{
    c == ' ' || c == '*'
}

/// A prefix of spaces strips to the skip of its length.
proof fn lemma_strip_leading_spaces(s: Seq<char>, k: int)
    requires
        0 <= k <= s.len(),
        forall|j: int| 0 <= j < k ==> s[j] == ' ',
        k == s.len() || s[k] != ' ',
    ensures
        strip_leading_spaces(s) == s.skip(k),
    decreases k,
{
    if k == 0 {
        assert(s.skip(0) =~= s);
    } else {
        assert(s[0] == ' ');
        lemma_strip_leading_spaces(s.drop_first(), k - 1);
        assert(s.drop_first().skip(k - 1) =~= s.skip(k));
    }
}

/// An index below which the last character is no tail character, and from
/// which on every character is one, is the tail start.
proof fn lemma_tail_start(s: Seq<char>, j: int)
    requires
        0 <= j <= s.len(),
        forall|k: int| j <= k < s.len() ==> is_tail_char(s[k]),
        j == 0 || !is_tail_char(s[j - 1]),
    ensures
        tail_start(s) == j,
    decreases s.len(),
{
    if j < s.len() {
        assert(is_tail_char(s[s.len() - 1]));
        lemma_tail_start(s.drop_last(), j);
    }
}

/// Maps one raw type string, exactly as [`map_type_ok`] says: `Ok` with
/// the descriptor for every string of the supported grammar, and
/// `UnsupportedType` naming the raw string for every other.
pub fn map_type(raw: &str) -> (r: Result<TypeDescriptor, GenError>)
    ensures
        match r {
            Ok(d) => map_type_ok(raw@) == Some(d@),
            Err(e) => map_type_ok(raw@) is None && e@ == GenErrorModel::UnsupportedType(raw@),
        },
{
    let len = raw.unicode_len();
    let is_const = str_starts_with(raw, "const ");
    proof {
        reveal_strlit("const ");
    }
    let start0: usize = if is_const {
        6
    } else {
        0
    };
    // skip the run of spaces after the qualifier
    let mut start: usize = start0;
    while start < len && raw.get_char(start) == ' '
        invariant
            len == raw@.len(),
            start0 <= start <= len,
            forall|j: int| start0 <= j < start ==> raw@[j] == ' ',
        decreases len - start,
    {
        start += 1;
    }
    let ghost body = strip_leading_spaces(after_const(raw@));
    proof {
        assert(after_const(raw@) =~= raw@.skip(start0 as int));
        lemma_strip_leading_spaces(raw@.skip(start0 as int), start - start0);
        assert(raw@.skip(start0 as int).skip(start - start0) =~= raw@.skip(start as int));
        assert(body =~= raw@.skip(start as int));
    }
    // find the start of the trailing run of spaces and pointer markers
    let mut tail: usize = len;
    while tail > start && tail_char(raw.get_char(tail - 1))
        invariant
            len == raw@.len(),
            start <= tail <= len,
            forall|k: int| tail <= k < len ==> is_tail_char(raw@[k]),
        decreases tail,
    {
        tail -= 1;
    }
    proof {
        lemma_tail_start(body, tail - start);
        assert(tail_start(body) == tail - start);
    }
    if tail == start {
        return Err(GenError::UnsupportedType(raw.to_owned()));
    }
    // the base identifier must be word and space characters throughout
    let mut k: usize = start;
    while k < tail
        invariant
            len == raw@.len(),
            start <= k <= tail <= len,
            body == strip_leading_spaces(after_const(raw@)),
            body == raw@.skip(start as int),
            tail_start(body) == tail - start,
            forall|j: int| start <= j < k ==> is_base_char(raw@[j]),
        decreases tail - k,
    {
        if !base_char(raw.get_char(k)) {
            proof {
                assert(!is_base_char(body[k - start]));
            }
            return Err(GenError::UnsupportedType(raw.to_owned()));
        }
        k += 1;
    }
    proof {
        // the base holds no pointer marker, so counting may begin at it
        lemma_no_stars(raw@, start as int, tail as int);
    }
    // count the pointer markers of the trailing run
    let mut depth: usize = 0;
    let mut i: usize = tail;
    while i < len
        invariant
            len == raw@.len(),
            start <= tail <= i <= len,
            depth <= i - tail,
            depth == star_count(raw@.subrange(start as int, i as int)),
        decreases len - i,
    {
        proof {
            assert(raw@.subrange(start as int, i + 1 as int).drop_last() =~= raw@.subrange(
                start as int,
                i as int,
            ));
        }
        if raw.get_char(i) == '*' {
            depth += 1;
        }
        i += 1;
    }
    proof {
        assert(raw@.subrange(start as int, len as int) =~= body);
        assert(depth == star_count(body));
        assert(body.take(tail - start) =~= raw@.subrange(start as int, tail as int));
    }
    let base_str = raw.substring_char(start, tail);
    let base = resolve_base_exec(base_str);
    let shape = if depth == 0 {
        PtrShape::Direct
    } else if depth == 1 && is_const {
        PtrShape::ConstPtr
    } else if depth == 1 {
        PtrShape::MutPtr
    } else if depth == 2 && is_const {
        PtrShape::MutConstPtr
    } else {
        return Err(GenError::UnsupportedType(raw.to_owned()));
    };
    Ok(TypeDescriptor { shape, base })
}

/// A subrange of base characters counts no pointer marker.
proof fn lemma_no_stars(s: Seq<char>, lo: int, hi: int)
    requires
        0 <= lo <= hi <= s.len(),
        forall|j: int| lo <= j < hi ==> is_base_char(s[j]),
    ensures
        star_count(s.subrange(lo, hi)) == 0,
    decreases hi - lo,
{
    if hi > lo {
        assert(s.subrange(lo, hi).drop_last() =~= s.subrange(lo, hi - 1));
        assert(!(s[hi - 1] == '*'));
        lemma_no_stars(s, lo, hi - 1);
    }
}

/// Resolves one base identifier against the fixed alias table.
fn resolve_base_exec(b: &str) -> (r: BaseType)
    ensures
        r@ == resolve_base(b@),
{
    if str_eq(b, "void") {
        BaseType::Void
    } else if str_eq(b, "bool") {
        BaseType::Bool
    } else if str_eq(b, "uint8_t") {
        BaseType::UInt8
    } else if str_eq(b, "uint32_t") {
        BaseType::UInt32
    } else if str_eq(b, "uint64_t") {
        BaseType::UInt64
    } else if str_eq(b, "int64_t") {
        BaseType::Int64
    } else if str_eq(b, "int") {
        BaseType::CInt
    } else if str_eq(b, "double") {
        BaseType::CDouble
    } else if str_eq(b, "char") {
        BaseType::CChar
    } else if str_eq(b, "signed char") {
        BaseType::CSChar
    } else if str_eq(b, "size_t") {
        BaseType::USize
    } else if str_eq(b, "JNIEnv") {
        BaseType::JniEnv
    } else if str_eq(b, "jobject") {
        BaseType::JObject
    } else {
        BaseType::Named(b.to_owned())
    }
}

} // verus!
