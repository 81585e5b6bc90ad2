//! A text widget: a line of static text and the semantics node that stands
//! for it.
use crate::semantics::{Node, NodeId, NodeView, Semantics};
use std::sync::Arc;
use vstd::prelude::*;

verus! {

/// accesskit's `Role::StaticText`, by its number.
pub const ROLE_STATIC_TEXT: u32 = 3;

/// The semantics node of a text: static text whose value is the text.
pub open spec fn text_node(text: Seq<char>) -> NodeView {
    NodeView { role: ROLE_STATIC_TEXT, name: None, value: Some(text), children: Seq::empty() }
}

/// A line of text and, once its semantics have been built, the identifier of
/// its node.
pub struct TextWidget {
    pub text: String,
    pub node_id: Option<NodeId>,
}

impl TextWidget {
    /// A widget for `text` whose semantics have not been built yet.
    pub fn new(text: String) -> (r: TextWidget)
        ensures
            r.text@ == text@,
            r.node_id.is_none(),
    {
        TextWidget { text, node_id: None }
    }

    /// Builds the semantics node of the text: the first time a new node is
    /// inserted and its identifier kept; later the node is updated in place.
    pub fn semantics<H>(&mut self, semantics: &mut Semantics<H>)
        requires
            old(semantics).wf(),
            old(semantics).child_stack().len() > 0,
            match old(self).node_id {
                Some(id) => old(semantics).node_map().contains_key(id),
                None => old(semantics).can_insert(),
            },
        ensures
            final(semantics).wf(),
            final(self).text == old(self).text,
            match old(self).node_id {
                Some(id) => {
                    &&& final(self).node_id == Some(id)
                    &&& old(semantics).update_post(id, text_node(old(self).text@), *final(semantics))
                },
                None => {
                    &&& final(self).node_id is Some
                    &&& old(semantics).insert_post(
                        text_node(old(self).text@),
                        *final(semantics),
                        final(self).node_id->0,
                    )
                },
            },
    {
        let node = Node {
            role: ROLE_STATIC_TEXT,
            name: None,
            value: Some(self.text.clone()),
            children: Vec::new(),
        };
        assert(node@ == text_node(self.text@));
        match self.node_id {
            Some(node_id) => {
                semantics.update(node_id, node);
            },
            None => {
                let id = semantics.insert(node);
                self.node_id = Some(id);
            },
        }
    }

    /// Removes the node of the text, if it has one.
    pub fn remove<H>(&mut self, semantics: &mut Semantics<H>)
        requires
            old(semantics).wf(),
        ensures
            final(semantics).wf(),
            *final(self) == *old(self),
            match old(self).node_id {
                Some(id) => exists|r: Option<Arc<Node>>| old(semantics).remove_post(id, *final(semantics), r),
                None => *final(semantics) == *old(semantics),
            },
    {
        if let Some(node_id) = self.node_id {
            let _removed = semantics.remove(node_id);
        }
    }
}

/// Building the semantics of a text whose node already holds that text
/// changes neither the nodes nor the pending update.
pub proof fn law_unchanged_text_is_not_sent_again<H>(
    text: Seq<char>,
    id: NodeId,
    a: Semantics<H>,
    b: Semantics<H>,
)
    requires
        a.node_map().contains_key(id),
        a.node_map()[id] == text_node(text),
        a.update_post(id, text_node(text), b),
    ensures
        b.node_map() == a.node_map(),
        b.pending_update() == a.pending_update(),
{
}

} // verus!
