//! Modifiers: values that adjust the configuration of an element and attach
//! handlers to its semantics node.
use vstd::prelude::*;

pub mod container;
pub mod handler;
pub mod keyboard_input;
pub mod modifier;

verus! {

/// A modification of a value of type `T`.
pub trait Modify<T> {
    fn modify(&mut self, value: &mut T);
}

} // verus!
