//! Handlers attached to semantics nodes.
use crate::semantics::{NodeId, Semantics};
use vstd::prelude::*;

pub mod clickable;
pub mod keyboard_input;

verus! {

/// A modifier that attaches a handler to an element's semantics node.
pub struct ModifierHandler<H> {
    handler: Option<H>,
}

impl<H> ModifierHandler<H> {
    /// The handler not yet attached.
    pub closed spec fn pending(self) -> Option<H> {
        self.handler
    }

    /// The modifier that the `handler` modifier of an element builds.
    pub fn new(handler: H) -> (r: Self)
        ensures
            r.pending() == Some(handler),
    {
        Self { handler: Some(handler) }
    }

    /// Attaches the handler to the node `node_id` the first time this runs,
    /// unless that node already has a handler, which is kept.
    pub fn semantics(&mut self, node_id: NodeId, semantics: &mut Semantics<H>)
        requires
            old(semantics).wf(),
        ensures
            final(semantics).wf(),
            final(semantics).same_but_handlers(*old(semantics)),
            final(self).pending().is_none(),
            final(semantics).handler_map() == match old(self).pending() {
                Some(h) => if old(semantics).handler_map().contains_key(node_id) {
                    old(semantics).handler_map()
                } else {
                    old(semantics).handler_map().insert(node_id, h)
                },
                None => old(semantics).handler_map(),
            },
    {
        if let Some(handler) = self.handler.take() {
            if !semantics.contains_handler(node_id) {
                semantics.insert_handler(node_id, handler);
            }
        }
        proof {
            old(semantics).lemma_same_but_handlers_refl();
        }
    }

    /// Detaches whatever handler the node `node_id` has.
    pub fn remove(&mut self, node_id: NodeId, semantics: &mut Semantics<H>)
        requires
            old(semantics).wf(),
        ensures
            final(semantics).wf(),
            final(semantics).same_but_handlers(*old(semantics)),
            final(semantics).handler_map() == old(semantics).handler_map().remove(node_id),
            *final(self) == *old(self),
    {
        semantics.remove_handler(node_id);
    }
}

} // verus!
