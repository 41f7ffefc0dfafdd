//! Manifest-driven synthesis of a typed foreign-function surface.
//!
//! Given a description of a host application's versioned plugin API — a
//! primary function table plus named extension tables, each a chain of
//! versioned revisions — this crate
//! - maps every raw C type string to a pointer-depth/const/primitive
//!   descriptor,
//! - flattens all categories and revisions into one ordered function list
//!   and emits a typed field, a forwarding accessor and a resolver line per
//!   function, and
//! - resolves, against a model of the host's linked structures, every
//!   required (category, major, minor) revision and extracts each function
//!   slot, failing fatally and specifically if any revision or slot is
//!   absent, so that no partially valid surface is ever handed to a caller.

pub mod document;
pub mod errors;
pub mod locator;
pub mod manifest;
pub mod synth;
pub mod text;
pub mod typemap;

pub use document::{parse_manifest, DocField, DocValue};
pub use errors::{GenError, GenErrorModel, RuntimeError, RuntimeErrorModel};
pub use locator::{
    find_api, resolve, slot_ptr, HostNode, HostSlot, HostStructure, ModuleState, ResolvedSurface,
    SurfaceEntry, SurfaceManager,
};
pub use manifest::{Argument, Category, Function, Manifest, Revision};
pub use synth::{generate, renamed_arg, required_apis, RequiredApi};
pub use typemap::{map_type, BaseType, PtrShape, TypeDescriptor};
