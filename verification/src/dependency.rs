//! Dependency clients and how a client value is resolved.
use vstd::prelude::*;

verus! {

/// A dependency client: a plain value with a live implementation that is used
/// whenever no override layer replaces it.
pub trait Dependency: Clone + Send + Sync + 'static {
    /// The live (production) value of this dependency.
    fn live() -> Self;
}

/// Resolves a dependency from `current`, the newest override found for it:
/// a clone of that override when there is one, and the live value otherwise.
pub fn get<D: Dependency>(current: Option<&D>) -> (dependency: D)
    ensures
        current matches Some(value) ==> cloned(*value, dependency),
        current is None ==> call_ensures(D::live, (), dependency),
{
    match current {
        Some(value) => value.clone(),
        None => D::live(),
    }
}

} // verus!
