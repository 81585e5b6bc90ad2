//! The keyboard input modifier.
use super::Modify;
use super::handler::keyboard_input::KeyboardInputHandler;
use crate::semantics::{NodeId, Semantics};
use vstd::prelude::*;

verus! {

/// A modifier that attaches a keyboard handler to an element's semantics
/// node, once.
pub struct KeyboardInput<H> {
    handler: Option<H>,
}

impl<H> KeyboardInput<H> {
    /// The handler not yet attached.
    pub closed spec fn pending(self) -> Option<H> {
        self.handler
    }

    pub fn new(handler: H) -> (r: Self)
        ensures
            r.pending() == Some(handler),
    {
        Self { handler: Some(handler) }
    }

    /// Attaches the handler to the node `node_id`, wrapped so that it
    /// receives only keyboard input, replacing any handler there, the first
    /// time this runs; later runs change nothing.
    pub fn semantics(&mut self, node_id: NodeId, semantics: &mut Semantics<KeyboardInputHandler<H>>)
        requires
            old(semantics).wf(),
        ensures
            final(semantics).wf(),
            final(semantics).same_but_handlers(*old(semantics)),
            final(self).pending().is_none(),
            final(semantics).handler_map() == match old(self).pending() {
                Some(h) => old(semantics).handler_map().insert(
                    node_id,
                    KeyboardInputHandler::spec_new(h),
                ),
                None => old(semantics).handler_map(),
            },
    {
        match self.handler.take() {
            Some(handler) => {
                semantics.insert_handler(node_id, KeyboardInputHandler::new(handler));
            },
            None => {
                proof {
                    old(semantics).lemma_same_but_handlers_refl();
                }
            },
        }
    }
}

impl<T, H> Modify<T> for KeyboardInput<H> {
    fn modify(&mut self, _value: &mut T)
        ensures
            *final(_value) == *old(_value),
            *final(self) == *old(self),
    {
    }
}

} // verus!
