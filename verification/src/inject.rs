//! Values a request handler obtains from the running server's shared state
//! without being handed them.
use vstd::prelude::*;

verus! {

/// A type whose value can be fetched from the state of the server that is
/// running, such as one of its repositories.
pub trait Resolve: Sized {
    /// The value the running server holds for this type.
    fn resolve() -> Self;
}

} // verus!
