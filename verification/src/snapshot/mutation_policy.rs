//! Mutation policies: when two values of a state count as equal, and how
//! conflicting changes merge.
use vstd::prelude::*;
use vstd::std_specs::cmp::PartialEqSpec;

verus! {

/// A policy that controls how a state reports and merges changes.
/// Typically one of the stock policies is used, such as
/// [`ReferentialEqualityPolicy`]; a custom policy, such as a counter policy,
/// implements this trait.
pub trait MutationPolicy<T> {
    /// Whether setting a state from `a` to `b` is no change.
    fn is_eq(&mut self, a: T, b: T) -> bool;

    /// Merges conflicting changes in snapshots. Only called when `current`
    /// and `applied` are not equal. A policy that can compute a merged value
    /// returns it; by default nothing merges.
    fn merge(&mut self, previous: T, current: T, applied: T) -> (r: Option<T>)
        default_ensures
            r.is_none(),
    {
        None
    }
}

/// The policy under which values are equal when `==` says so.
pub struct ReferentialEqualityPolicy;

impl<T: PartialEq> MutationPolicy<T> for ReferentialEqualityPolicy {
    fn is_eq(&mut self, a: T, b: T) -> (r: bool)
        ensures
            T::obeys_eq_spec() ==> r == a.eq_spec(&b),
    {
        a == b
    }
}

} // verus!
