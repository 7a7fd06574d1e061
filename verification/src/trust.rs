//! Type-level distinction between externally supplied and scope-checked ids.
//!
//! Every numeric identifier that enters the library from the outside starts
//! out *untrusted*. A verification procedure (an existence-and-scope query
//! against the store) is the only way to obtain the *trusted* form, and only
//! trusted identifiers may be used for mutations or scoped fetches.

use vstd::prelude::*;

verus! {

/// Marker trait for the two trust levels of an identifier.
pub trait Trustability: Copy {
}

/// A trusted id: it was checked to exist inside its parent scope.
#[derive(Debug, Clone, Copy)]
pub struct Trusted;

impl Trustability for Trusted {
}

/// An untrusted id: it came from external input and was not checked yet.
#[derive(Debug, Clone, Copy)]
pub struct Untrusted;

impl Trustability for Untrusted {
}

} // verus!
