//! The empty modifier.
use super::Modify;
use vstd::prelude::*;

verus! {

/// The modifier that changes nothing; chains of modifiers start from it.
pub struct Modifier;

impl<T> Modify<T> for Modifier {
    fn modify(&mut self, _value: &mut T)
        ensures
            *final(_value) == *old(_value),
    {
    }
}

} // verus!
