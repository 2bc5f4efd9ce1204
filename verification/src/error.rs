//! Decode-time structural errors.

use vstd::prelude::*;

verus! {

/// A structural violation of the source graph discovered during decode.
/// These are fatal to the decode: no partial module is handed out.
#[derive(PartialEq, Eq, Clone, Copy, Debug, Structural)]
pub enum DecodeError {
    /// A global variable or alias whose resolved type is not a pointer
    /// type.
    NonPointerGlobalType,
    /// A metadata operand, or a named-metadata entry, that refers to no
    /// node of the metadata table.
    MetadataRefNotFound,
}

} // verus!
