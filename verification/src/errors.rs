//! Error kinds of the generation pass and of runtime resolution.
//!
//! All of them are fail-fast by design: a binding layer must never hand a
//! caller a surface with silent gaps, so every kind names exactly what was
//! missing or unsupported and no kind is ever retried.

use vstd::prelude::*;

verus! {

/// A generation-time failure. Generation aborts on the first one.
#[derive(Debug, PartialEq, Eq)]
pub enum GenError {
    /// The structured description misses a required field or holds one of
    /// the wrong kind; the payload names the offending field.
    MalformedManifest(String),
    /// A raw type string lies outside the supported grammar; the payload is
    /// the raw string itself.
    UnsupportedType(String),
    /// A (category tag, major, minor) pair is absent from the fixed naming
    /// tables.
    UnknownCategory(String, u32, u32),
}

/// The mathematical value of a [`GenError`]: the same three kinds with the
/// payload strings taken as character sequences.
pub enum GenErrorModel {
    MalformedManifest(Seq<char>),
    UnsupportedType(Seq<char>),
    UnknownCategory(Seq<char>, u32, u32),
}

impl View for GenError {
    type V = GenErrorModel;

    open spec fn view(&self) -> GenErrorModel {
        match self {
            GenError::MalformedManifest(s) => GenErrorModel::MalformedManifest(s@),
            GenError::UnsupportedType(s) => GenErrorModel::UnsupportedType(s@),
            GenError::UnknownCategory(tag, major, minor) => GenErrorModel::UnknownCategory(
                tag@,
                *major,
                *minor,
            ),
        }
    }
}

/// A resolution-time failure. Resolution aborts on the first one and no
/// partially built surface escapes.
#[derive(Debug, PartialEq, Eq)]
pub enum RuntimeError {
    /// No node of the host's linked structures carries the required
    /// (category tag, major, minor) triple.
    ApiNotFound(String, u32, u32),
    /// A located table advertises the named function slot as null; the
    /// payloads name the owning table and the function.
    MissingFunction(String, String),
}

/// The mathematical value of a [`RuntimeError`].
pub enum RuntimeErrorModel {
    ApiNotFound(Seq<char>, u32, u32),
    MissingFunction(Seq<char>, Seq<char>),
}

impl View for RuntimeError {
    type V = RuntimeErrorModel;

    open spec fn view(&self) -> RuntimeErrorModel {
        match self {
            RuntimeError::ApiNotFound(tag, major, minor) => RuntimeErrorModel::ApiNotFound(
                tag@,
                *major,
                *minor,
            ),
            RuntimeError::MissingFunction(table, function) => RuntimeErrorModel::MissingFunction(
                table@,
                function@,
            ),
        }
    }
}

} // verus!
