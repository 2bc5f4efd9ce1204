//! A decoder that turns an in-memory IR module graph -- functions, global
//! variables, global aliases, named struct types, and metadata nodes, all
//! addressed by transient handles -- into a fully owned, immutable `Module`
//! value in which every cross-reference is a symbolic identifier or a stable
//! integer ID.
//!
//! The source graph is handed in as a plain [`raw::RawModule`] value; an
//! unverified front end builds it from whatever native IR library produced
//! the graph and loads the serialized bytes.

pub mod constant;
pub mod error;
pub mod laws;
pub mod metadata;
pub mod module;
pub mod name;
pub mod raw;
pub mod types;

pub use constant::Constant;
pub use error::DecodeError;
pub use metadata::{MetadataNode, MetadataNodeID, MetadataNodeMap};
pub use module::{
    Comdat, DLLStorageClass, Function, FunctionAttributeGroup, GlobalAlias, GlobalVariable,
    Linkage, Module, NamedMetadata, SelectionKind, ThreadLocalMode, UnnamedAddr, Visibility,
};
pub use name::Name;
pub use types::Type;
