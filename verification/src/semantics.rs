//! The semantics tree: accessibility nodes with recycled identifiers, a stack
//! of the children collected for each open group, the updates to hand to an
//! accessibility adapter, and the event handlers attached to nodes.
use std::collections::HashMap;
use std::sync::Arc;
use vstd::prelude::*;

verus! {

broadcast use vstd::std_specs::hash::group_hash_axioms;

/// The identifier of a semantics node. Identifiers start at 1.
pub type NodeId = u128;

/// An accessibility node: its role (the number of an accessibility role),
/// its name, its value and its children.
pub struct Node {
    pub role: u32,
    pub name: Option<String>,
    pub value: Option<String>,
    pub children: Vec<NodeId>,
}

/// The text of an optional string.
pub open spec fn text_of(s: Option<String>) -> Option<Seq<char>> {
    match s {
        Some(s) => Some(s@),
        None => None,
    }
}

/// What a node holds, as mathematical values.
pub struct NodeView {
    pub role: u32,
    pub name: Option<Seq<char>>,
    pub value: Option<Seq<char>>,
    pub children: Seq<NodeId>,
}

impl View for Node {
    type V = NodeView;

    open spec fn view(&self) -> NodeView {
        NodeView {
            role: self.role,
            name: text_of(self.name),
            value: text_of(self.value),
            children: self.children@,
        }
    }
}

impl Default for Node {
    /// A node with the unknown role, no name, no value and no children.
    fn default() -> (r: Node)
        ensures
            r@ == (NodeView { role: 0, name: None, value: None, children: Seq::empty() }),
    {
        let r = Node { role: 0, name: None, value: None, children: Vec::new() };
        assert(r.children@ =~= Seq::<NodeId>::empty());
        r
    }
}

/// `Arc::clone`: another pointer to the same node.
#[verifier::external_body]
fn share(node: &Arc<Node>) -> (r: Arc<Node>)
    ensures
        r == *node,
{
    Arc::clone(node)
}

/// `String::clone` on an optional string.
fn clone_text(s: &Option<String>) -> (r: Option<String>)
    ensures
        text_of(r) == text_of(*s),
{
    match s {
        Some(s) => Some(s.clone()),
        None => None,
    }
}

fn same_text(a: &Option<String>, b: &Option<String>) -> (r: bool)
    ensures
        r == (text_of(*a) == text_of(*b)),
{
    match (a, b) {
        (Some(a), Some(b)) => <String as PartialEq>::eq(a, b),
        (None, None) => true,
        _ => false,
    }
}

fn same_ids(a: &Vec<NodeId>, b: &Vec<NodeId>) -> (r: bool)
    ensures
        r == (a@ == b@),
{
    if a.len() != b.len() {
        return false;
    }
    let mut i: usize = 0;
    while i < a.len()
        invariant
            0 <= i <= a.len(),
            a.len() == b.len(),
            forall|j: int| 0 <= j < i ==> a@[j] == b@[j],
        decreases a.len() - i,
    {
        if a[i] != b[i] {
            return false;
        }
        i = i + 1;
    }
    assert(a@ =~= b@);
    true
}

/// Compares two nodes field by field.
fn same_node(a: &Node, b: &Node) -> (r: bool)
    ensures
        r == (a@ == b@),
{
    a.role == b.role && same_text(&a.name, &b.name) && same_text(&a.value, &b.value) && same_ids(
        &a.children,
        &b.children,
    )
}

/// The nodes that changed since the last update was taken, in the order in
/// which they changed.
pub struct TreeUpdate {
    pub nodes: Vec<(NodeId, Arc<Node>)>,
}

impl Default for TreeUpdate {
    fn default() -> (r: TreeUpdate)
        ensures
            r.nodes@ == Seq::<(NodeId, Arc<Node>)>::empty(),
    {
        TreeUpdate { nodes: Vec::new() }
    }
}

/// The semantics tree, with handlers of type `H` attached to its nodes.
pub struct Semantics<H> {
    pub nodes: HashMap<NodeId, Arc<Node>>,
    pub children: Vec<Vec<NodeId>>,
    high_water_mark: NodeId,
    unused_ids: Vec<NodeId>,
    tree_update: TreeUpdate,
    pub handlers: HashMap<NodeId, H>,
}

/// The views of a stack of identifier lists.
pub open spec fn stack_view(s: Seq<Vec<NodeId>>) -> Seq<Seq<NodeId>> {
    s.map_values(|v: Vec<NodeId>| v@)
}

/// What the entries of an update hold.
pub open spec fn update_view(s: Seq<(NodeId, Arc<Node>)>) -> Seq<(NodeId, NodeView)> {
    s.map_values(|p: (NodeId, Arc<Node>)| (p.0, (*p.1)@))
}

/// The value a merging group ends with: its own value if it has one, else
/// the first value among its children's values.
pub open spec fn merged_value(init: Option<Seq<char>>, vals: Seq<Option<Seq<char>>>) -> Option<
    Seq<char>,
>
    decreases vals.len(),
{
    if vals.len() == 0 {
        init
    } else {
        let m = merged_value(init, vals.drop_last());
        if m.is_none() {
            vals.last()
        } else {
            m
        }
    }
}

/// `s` with `id` appended to its last list.
pub open spec fn push_on_top(s: Seq<Seq<NodeId>>, id: NodeId) -> Seq<Seq<NodeId>> {
    s.update(s.len() - 1, s.last().push(id))
}

impl<H> Semantics<H> {
    /// What each node holds, by identifier.
    pub closed spec fn node_map(self) -> Map<NodeId, NodeView> {
        self.nodes@.map_values(|n: Arc<Node>| (*n)@)
    }

    /// The children collected for each open group, innermost last.
    pub closed spec fn child_stack(self) -> Seq<Seq<NodeId>> {
        stack_view(self.children@)
    }

    /// The next identifier never handed out yet.
    pub closed spec fn high_water_mark(self) -> NodeId {
        self.high_water_mark
    }

    /// Identifiers of removed nodes, to be handed out again last first.
    pub closed spec fn unused_ids(self) -> Seq<NodeId> {
        self.unused_ids@
    }

    /// The changes not yet taken.
    pub closed spec fn pending_update(self) -> Seq<(NodeId, NodeView)> {
        update_view(self.tree_update.nodes@)
    }

    pub closed spec fn handler_map(self) -> Map<NodeId, H> {
        self.handlers@
    }

    /// Identifiers are handed out once: every node and every unused
    /// identifier lies below the high-water mark, no unused identifier
    /// belongs to a node, and none is unused twice.
    pub closed spec fn wf(self) -> bool {
        &&& 1 <= self.high_water_mark
        &&& forall|id: NodeId| #[trigger]
            self.nodes@.contains_key(id) ==> 1 <= id < self.high_water_mark
        &&& forall|i: int|
            0 <= i < self.unused_ids@.len() ==> 1 <= #[trigger] self.unused_ids@[i]
                < self.high_water_mark && !self.nodes@.contains_key(self.unused_ids@[i])
        &&& self.unused_ids@.no_duplicates()
    }

    /// The identifier that the next `insert` hands out.
    pub open spec fn next_id(self) -> NodeId {
        if self.unused_ids().len() > 0 {
            self.unused_ids().last()
        } else {
            self.high_water_mark()
        }
    }

    /// `insert` can hand out an identifier.
    pub open spec fn can_insert(self) -> bool {
        self.unused_ids().len() > 0 || self.high_water_mark() < u128::MAX
    }

    /// Relates a tree to the one that `insert(node)` leaves and the
    /// identifier it returns.
    pub open spec fn insert_post(self, node: NodeView, next: Self, id: NodeId) -> bool {
        &&& id == self.next_id()
        &&& !self.node_map().contains_key(id)
        &&& next.node_map() == self.node_map().insert(id, node)
        &&& next.child_stack() == push_on_top(self.child_stack(), id)
        &&& next.pending_update() == self.pending_update().push((id, node))
        &&& next.handler_map() == self.handler_map()
        &&& if self.unused_ids().len() > 0 {
            &&& next.unused_ids() == self.unused_ids().drop_last()
            &&& next.high_water_mark() == self.high_water_mark()
        } else {
            &&& next.unused_ids() == self.unused_ids()
            &&& next.high_water_mark() == self.high_water_mark() + 1
        }
    }

    /// Relates a tree to the one that `update(id, node)` leaves: `id` joins
    /// the innermost open group, and the node is replaced and recorded in the
    /// pending update only when it differs from the one held.
    pub open spec fn update_post(self, id: NodeId, node: NodeView, next: Self) -> bool {
        &&& next.child_stack() == push_on_top(self.child_stack(), id)
        &&& next.handler_map() == self.handler_map()
        &&& next.high_water_mark() == self.high_water_mark()
        &&& next.unused_ids() == self.unused_ids()
        &&& if node != self.node_map()[id] {
            &&& next.node_map() == self.node_map().insert(id, node)
            &&& next.pending_update() == self.pending_update().push((id, node))
        } else {
            &&& next.node_map() == self.node_map()
            &&& next.pending_update() == self.pending_update()
        }
    }

    /// Relates a tree to the one that `remove(id)` leaves and what it
    /// returns.
    pub open spec fn remove_post(self, id: NodeId, next: Self, r: Option<Arc<Node>>) -> bool {
        &&& next.child_stack() == self.child_stack()
        &&& next.pending_update() == self.pending_update()
        &&& next.handler_map() == self.handler_map()
        &&& next.high_water_mark() == self.high_water_mark()
        &&& if self.node_map().contains_key(id) {
            &&& r is Some && (*r->0)@ == self.node_map()[id]
            &&& next.node_map() == self.node_map().remove(id)
            &&& next.unused_ids() == self.unused_ids().push(id)
        } else {
            &&& r.is_none()
            &&& next.node_map() == self.node_map()
            &&& next.unused_ids() == self.unused_ids()
        }
    }
}

impl<H> Default for Semantics<H> {
    fn default() -> (r: Self)
        ensures
            r.wf(),
            r.node_map() == Map::<NodeId, NodeView>::empty(),
            r.child_stack() == seq![Seq::<NodeId>::empty()],
            r.high_water_mark() == 1,
            r.unused_ids() == Seq::<NodeId>::empty(),
            r.pending_update() == Seq::<(NodeId, NodeView)>::empty(),
            r.handler_map() == Map::<NodeId, H>::empty(),
    {
        let mut children: Vec<Vec<NodeId>> = Vec::new();
        children.push(Vec::new());
        let r = Self {
            nodes: HashMap::new(),
            children,
            high_water_mark: 1,
            unused_ids: Vec::new(),
            tree_update: TreeUpdate::default(),
            handlers: HashMap::new(),
        };
        assert(r.child_stack() =~= seq![Seq::<NodeId>::empty()]);
        assert(r.unused_ids@ =~= Seq::<NodeId>::empty());
        r
    }
}

impl<H> Semantics<H> {
    /// Appends `id` to the children of the innermost open group.
    fn push_child(&mut self, id: NodeId)
        requires
            old(self).child_stack().len() > 0,
        ensures
            final(self).child_stack() == push_on_top(old(self).child_stack(), id),
            final(self).nodes == old(self).nodes,
            final(self).high_water_mark == old(self).high_water_mark,
            final(self).unused_ids == old(self).unused_ids,
            final(self).tree_update == old(self).tree_update,
            final(self).handlers == old(self).handlers,
    {
        let mut top = match self.children.pop() {
            Some(top) => top,
            None => Vec::new(),
        };
        top.push(id);
        self.children.push(top);
        assert(self.child_stack() =~= push_on_top(old(self).child_stack(), id));
    }

    /// Adds a node, under an identifier removed earlier if there is one (the
    /// last removed first) or a new one, as a child of the innermost open
    /// group, and records it in the pending update.
    pub fn insert(&mut self, node: Node) -> (id: NodeId)
        requires
            old(self).wf(),
            old(self).can_insert(),
            old(self).child_stack().len() > 0,
        ensures
            final(self).wf(),
            old(self).insert_post(node@, *final(self), id),
    {
        let id = match self.unused_ids.pop() {
            Some(id) => id,
            None => {
                let id = self.high_water_mark;
                self.high_water_mark = self.high_water_mark + 1;
                id
            },
        };
        proof {
            if old(self).unused_ids@.len() > 0 {
                let u = old(self).unused_ids@;
                assert(u[u.len() - 1] == id);
                assert forall|i: int| 0 <= i < self.unused_ids@.len() implies #[trigger] self.unused_ids@[i] != id by {
                    assert(u[i] == self.unused_ids@[i]);
                }
            }
        }
        let ghost v = node@;
        let node = Arc::new(node);
        self.nodes.insert(id, share(&node));
        self.push_child(id);
        self.tree_update.nodes.push((id, node));
        proof {
            assert(self.node_map() =~= old(self).node_map().insert(id, v));
            assert(self.pending_update() =~= old(self).pending_update().push((id, v)));
            if old(self).unused_ids@.len() > 0 {
                assert(self.unused_ids@ =~= old(self).unused_ids@.drop_last());
                assert forall|i: int| 0 <= i < self.unused_ids@.len() implies 1 <= #[trigger] self.unused_ids@[i]
                    < self.high_water_mark && !self.nodes@.contains_key(self.unused_ids@[i]) by {
                    assert(self.unused_ids@[i] == old(self).unused_ids@[i]);
                }
            }
        }
        id
    }

    /// Records `node` under `id` as a child of the innermost open group; the
    /// node is replaced and recorded in the pending update only when it
    /// differs from the one held.
    pub fn update(&mut self, id: NodeId, node: Node)
        requires
            old(self).wf(),
            old(self).node_map().contains_key(id),
            old(self).child_stack().len() > 0,
        ensures
            final(self).wf(),
            old(self).update_post(id, node@, *final(self)),
    {
        self.push_child(id);
        let changed = match self.nodes.get(&id) {
            Some(last_node) => !same_node(&node, last_node),
            None => true,
        };
        let ghost v = node@;
        if changed {
            let node = Arc::new(node);
            self.nodes.insert(id, share(&node));
            self.tree_update.nodes.push((id, node));
            assert(self.node_map() =~= old(self).node_map().insert(id, v));
            assert(self.pending_update() =~= old(self).pending_update().push((id, v)));
        } else {
            assert(self.node_map() =~= old(self).node_map());
            assert(self.pending_update() =~= old(self).pending_update());
        }
    }

    /// Opens a group: the nodes added next become its children.
    pub fn start_group(&mut self)
        ensures
            final(self).child_stack() == old(self).child_stack().push(Seq::empty()),
            final(self).node_map() == old(self).node_map(),
            final(self).high_water_mark() == old(self).high_water_mark(),
            final(self).unused_ids() == old(self).unused_ids(),
            final(self).pending_update() == old(self).pending_update(),
            final(self).handler_map() == old(self).handler_map(),
    {
        self.children.push(Vec::new());
        assert(self.child_stack() =~= old(self).child_stack().push(Seq::empty()));
    }

    /// Takes the children of the innermost open group off the stack.
    fn pop_children(&mut self) -> (r: Vec<NodeId>)
        requires
            old(self).child_stack().len() > 0,
        ensures
            r@ == old(self).child_stack().last(),
            final(self).child_stack() == old(self).child_stack().drop_last(),
            final(self).nodes == old(self).nodes,
            final(self).high_water_mark == old(self).high_water_mark,
            final(self).unused_ids == old(self).unused_ids,
            final(self).tree_update == old(self).tree_update,
            final(self).handlers == old(self).handlers,
    {
        let r = match self.children.pop() {
            Some(r) => r,
            None => Vec::new(),
        };
        assert(self.child_stack() =~= old(self).child_stack().drop_last());
        r
    }

    /// Closes the innermost group and adds a node with its children.
    pub fn end_group(&mut self) -> (id: NodeId)
        requires
            old(self).wf(),
            old(self).can_insert(),
            old(self).child_stack().len() > 1,
        ensures
            final(self).wf(),
            id == old(self).next_id(),
            !old(self).node_map().contains_key(id),
            final(self).node_map()[id] == (NodeView {
                role: 0,
                name: None,
                value: None,
                children: old(self).child_stack().last(),
            }),
            final(self).node_map() == old(self).node_map().insert(id, final(self).node_map()[id]),
            final(self).child_stack() == push_on_top(old(self).child_stack().drop_last(), id),
            final(self).pending_update() == old(self).pending_update().push(
                (id, final(self).node_map()[id]),
            ),
            final(self).handler_map() == old(self).handler_map(),
    {
        let children = self.pop_children();
        let mut node = Node::default();
        node.children = children;
        self.insert(node)
    }

    /// Closes the innermost group and records its children as the node `id`.
    pub fn end_group_update(&mut self, id: NodeId)
        requires
            old(self).wf(),
            old(self).node_map().contains_key(id),
            old(self).child_stack().len() > 1,
        ensures
            final(self).wf(),
            final(self).child_stack() == push_on_top(old(self).child_stack().drop_last(), id),
            final(self).node_map()[id] == (NodeView {
                role: 0,
                name: None,
                value: None,
                children: old(self).child_stack().last(),
            }),
            final(self).node_map().dom() == old(self).node_map().dom(),
            forall|k: NodeId| k != id ==> #[trigger] final(self).node_map().contains_key(k) ==> final(self).node_map()[k] == old(self).node_map()[k],
            final(self).handler_map() == old(self).handler_map(),
            final(self).unused_ids() == old(self).unused_ids(),
            final(self).high_water_mark() == old(self).high_water_mark(),
            ({
                let v = NodeView {
                    role: 0,
                    name: None,
                    value: None,
                    children: old(self).child_stack().last(),
                };
                if v != old(self).node_map()[id] {
                    final(self).pending_update() == old(self).pending_update().push((id, v))
                } else {
                    final(self).pending_update() == old(self).pending_update()
                }
            }),
    {
        let children = self.pop_children();
        let mut node = Node::default();
        node.children = children;
        self.update(id, node);
        proof {
            if node@ == old(self).node_map()[id] {
            }
        }
    }

    /// Removes the node `id`; its identifier will be handed out again.
    pub fn remove(&mut self, id: NodeId) -> (r: Option<Arc<Node>>)
        requires
            old(self).wf(),
        ensures
            final(self).wf(),
            old(self).remove_post(id, *final(self), r),
    {
        match self.nodes.remove(&id) {
            Some(node) => {
                proof {
                    assert(!old(self).unused_ids@.contains(id)) by {
                        if old(self).unused_ids@.contains(id) {
                            let i = choose|i: int| 0 <= i < old(self).unused_ids@.len() && old(self).unused_ids@[i] == id;
                            assert(!old(self).nodes@.contains_key(old(self).unused_ids@[i]));
                        }
                    }
                }
                self.unused_ids.push(id);
                proof {
                    let u = self.unused_ids@;
                    assert forall|i: int| 0 <= i < u.len() implies 1 <= #[trigger] u[i] < self.high_water_mark && !self.nodes@.contains_key(u[i]) by {
                        if i < u.len() - 1 {
                            assert(u[i] == old(self).unused_ids@[i]);
                        }
                    }
                }
                proof {
                    assert(self.node_map() =~= old(self).node_map().remove(id));
                }
                Some(node)
            },
            None => {
                proof {
                    assert(self.node_map() =~= old(self).node_map());
                }
                None
            },
        }
    }

    /// Takes the pending update, leaving an empty one.
    pub fn tree_update(&mut self) -> (r: TreeUpdate)
        ensures
            update_view(r.nodes@) == old(self).pending_update(),
            final(self).pending_update() == Seq::<(NodeId, NodeView)>::empty(),
            final(self).node_map() == old(self).node_map(),
            final(self).child_stack() == old(self).child_stack(),
            final(self).high_water_mark() == old(self).high_water_mark(),
            final(self).unused_ids() == old(self).unused_ids(),
            final(self).handler_map() == old(self).handler_map(),
    {
        let mut r = TreeUpdate::default();
        std::mem::swap(&mut r, &mut self.tree_update);
        r
    }
}

impl<H> Semantics<H> {
    /// The values of the nodes `ids`, in order.
    pub open spec fn values_of(self, ids: Seq<NodeId>) -> Seq<Option<Seq<char>>> {
        ids.map_values(|k: NodeId| self.node_map()[k].value)
    }

    /// Closes the innermost group and adds `node` for it. When `merge`
    /// holds, the group's children are removed and `node` takes the first of
    /// their values unless it has a value of its own; otherwise `node`
    /// receives the children.
    pub fn end_group_with_node(&mut self, node: Node, merge: bool) -> (id: NodeId)
        requires
            old(self).wf(),
            old(self).child_stack().len() > 1,
            merge ==> old(self).child_stack().last().no_duplicates(),
            merge ==> forall|i: int|
                0 <= i < old(self).child_stack().last().len() ==> old(self).node_map().contains_key(
                    #[trigger] old(self).child_stack().last()[i],
                ),
            (merge && old(self).child_stack().last().len() > 0) || old(self).can_insert(),
        ensures
            final(self).wf(),
            ({
                let c = old(self).child_stack().last();
                let merged = merge && c.len() > 0;
                &&& id == if merged {
                    c.last()
                } else {
                    old(self).next_id()
                }
                &&& !(if merge {
                    old(self).node_map().remove_keys(c.to_set())
                } else {
                    old(self).node_map()
                }).contains_key(id)
                &&& final(self).node_map() == (if merge {
                    old(self).node_map().remove_keys(c.to_set())
                } else {
                    old(self).node_map()
                }).insert(
                    id,
                    NodeView {
                        role: node.role,
                        name: text_of(node.name),
                        value: if merge {
                            merged_value(text_of(node.value), old(self).values_of(c))
                        } else {
                            text_of(node.value)
                        },
                        children: if merge {
                            node.children@
                        } else {
                            c
                        },
                    },
                )
                &&& final(self).child_stack() == push_on_top(old(self).child_stack().drop_last(), id)
                &&& final(self).pending_update() == old(self).pending_update().push(
                    (id, final(self).node_map()[id]),
                )
                &&& final(self).handler_map() == old(self).handler_map()
                &&& final(self).unused_ids() == if merged {
                    old(self).unused_ids() + c.drop_last()
                } else if old(self).unused_ids().len() > 0 {
                    old(self).unused_ids().drop_last()
                } else {
                    old(self).unused_ids()
                }
            }),
    {
        let children = self.pop_children();
        let ghost nv = node@;
        let mut n = node;
        let ghost c = children@;
        let ghost old_map = old(self).node_map();
        let ghost init = nv.value;
        if merge {
            let mut i: usize = 0;
            while i < children.len()
                invariant
                    0 <= i <= children.len(),
                    c == children@,
                    c.no_duplicates(),
                    forall|j: int| 0 <= j < c.len() ==> old_map.contains_key(#[trigger] c[j]),
                    self.wf(),
                    old_map == old(self).node_map(),
                    self.node_map() == old_map.remove_keys(c.subrange(0, i as int).to_set()),
                    self.unused_ids() == old(self).unused_ids() + c.subrange(0, i as int),
                    self.child_stack() == old(self).child_stack().drop_last(),
                    self.pending_update() == old(self).pending_update(),
                    self.handler_map() == old(self).handler_map(),
                    self.high_water_mark() == old(self).high_water_mark(),
                    text_of(n.value) == merged_value(
                        init,
                        old(self).values_of(c).subrange(0, i as int),
                    ),
                    n.role == nv.role,
                    text_of(n.name) == nv.name,
                    n.children@ == nv.children,
                decreases children.len() - i,
            {
                let k = children[i];
                proof {
                    assert(!c.subrange(0, i as int).to_set().contains(k)) by {
                        if c.subrange(0, i as int).to_set().contains(k) {
                            let j = choose|j: int| 0 <= j < i && c.subrange(0, i as int)[j] == k;
                            assert(c[j] == c[i as int]);
                        }
                    }
                    assert(self.node_map().contains_key(k));
                }
                let removed = self.remove(k);
                if let Some(child) = removed {
                    if child.value.is_some() && n.value.is_none() {
                        n.value = clone_text(&child.value);
                    }
                }
                proof {
                    let vals = old(self).values_of(c);
                    assert(vals.subrange(0, i + 1).drop_last() =~= vals.subrange(0, i as int));
                    assert(vals[i as int] == old_map[k].value);
                    let pre = c.subrange(0, i as int);
                    let post = c.subrange(0, i + 1);
                    assert forall|x: NodeId| post.contains(x) <==> (pre.contains(x) || x == k) by {
                        if post.contains(x) {
                            let j = choose|j: int| 0 <= j < post.len() && post[j] == x;
                            if j < i {
                                assert(pre[j] == x);
                            }
                        }
                        if pre.contains(x) {
                            let j = choose|j: int| 0 <= j < pre.len() && pre[j] == x;
                            assert(post[j] == x);
                        }
                        if x == k {
                            assert(post[i as int] == k);
                        }
                    }
                    assert(post.to_set() =~= pre.to_set().insert(k));
                    assert(self.node_map() =~= old_map.remove_keys(c.subrange(0, i + 1).to_set()));
                    assert(c.subrange(0, i + 1) =~= c.subrange(0, i as int).push(k));
                }
                i = i + 1;
            }
            proof {
                assert(c.subrange(0, c.len() as int) =~= c);
                assert(old(self).values_of(c).subrange(0, c.len() as int) =~= old(self).values_of(c));
            }
        } else {
            n.children = children;
        }
        let ghost before = *self;
        let id = self.insert(n);
        proof {
            if merge && c.len() > 0 {
                assert(before.unused_ids().last() == c.last());
                assert((old(self).unused_ids() + c).drop_last() =~= old(self).unused_ids() + c.drop_last());
            }
            if !merge || c.len() == 0 {
                assert(old(self).unused_ids() + c.subrange(0, 0) =~= old(self).unused_ids());
            }
        }
        id
    }
}

/// An identifier freed by `remove` is the next one `insert` hands out.
pub proof fn law_removed_id_is_reused<H>(
    a: Semantics<H>,
    id: NodeId,
    b: Semantics<H>,
    removed: Option<Arc<Node>>,
    node: NodeView,
    c: Semantics<H>,
    r: NodeId,
)
    requires
        a.node_map().contains_key(id),
        a.remove_post(id, b, removed),
        b.insert_post(node, c, r),
    ensures
        r == id,
        removed is Some,
{
}

/// Removing a node right after inserting it gives the node back and leaves
/// the node map as it was.
pub proof fn law_insert_then_remove<H>(
    a: Semantics<H>,
    node: NodeView,
    b: Semantics<H>,
    id: NodeId,
    c: Semantics<H>,
    r: Option<Arc<Node>>,
)
    requires
        a.insert_post(node, b, id),
        b.remove_post(id, c, r),
    ensures
        r is Some,
        (*r->0)@ == node,
        c.node_map() == a.node_map(),
{
    assert(c.node_map() =~= a.node_map());
}

impl<H> Semantics<H> {
    /// Both trees agree on everything but their handlers.
    pub closed spec fn same_but_handlers(self, other: Self) -> bool {
        &&& self.nodes@ == other.nodes@
        &&& self.children@ == other.children@
        &&& self.high_water_mark == other.high_water_mark
        &&& self.unused_ids@ == other.unused_ids@
        &&& self.tree_update.nodes@ == other.tree_update.nodes@
    }

    /// Every tree agrees with itself on everything but its handlers.
    pub proof fn lemma_same_but_handlers_refl(self)
        ensures
            self.same_but_handlers(self),
    {
    }

    /// Whether a handler is attached to the node `id`.
    pub fn contains_handler(&self, id: NodeId) -> (r: bool)
        ensures
            r == self.handler_map().contains_key(id),
    {
        self.handlers.contains_key(&id)
    }

    /// Attaches `handler` to the node `id`, replacing and returning the
    /// handler attached before.
    pub fn insert_handler(&mut self, id: NodeId, handler: H) -> (r: Option<H>)
        requires
            old(self).wf(),
        ensures
            final(self).wf(),
            final(self).same_but_handlers(*old(self)),
            final(self).handler_map() == old(self).handler_map().insert(id, handler),
            r == old(self).handler_map().get(id),
    {
        self.handlers.insert(id, handler)
    }

    /// Detaches and returns the handler of the node `id`.
    pub fn remove_handler(&mut self, id: NodeId) -> (r: Option<H>)
        requires
            old(self).wf(),
        ensures
            final(self).wf(),
            final(self).same_but_handlers(*old(self)),
            final(self).handler_map() == old(self).handler_map().remove(id),
            r == old(self).handler_map().get(id),
    {
        self.handlers.remove(&id)
    }
}

/// When descendants are merged into a node, a value of the node's own wins:
/// the merged value is the node's own whatever the children hold. A node
/// without a value takes the first value among its children, in order, and
/// keeps none when no child has one.
pub proof fn law_own_value_wins_when_merging(init: Option<Seq<char>>, vals: Seq<Option<Seq<char>>>)
    ensures
        init is Some ==> merged_value(init, vals) == init,
        init is None ==> match merged_value(init, vals) {
            Some(w) => exists|i: int|
                0 <= i < vals.len() && vals[i] == Some(w) && forall|j: int|
                    0 <= j < i ==> #[trigger] vals[j] is None,
            None => forall|j: int| 0 <= j < vals.len() ==> #[trigger] vals[j] is None,
        },
    decreases vals.len(),
{
    if vals.len() > 0 {
        let rest = vals.drop_last();
        law_own_value_wins_when_merging(init, rest);
        if init is None {
            match merged_value(init, rest) {
                Some(w) => {
                    let i = choose|i: int|
                        0 <= i < rest.len() && rest[i] == Some(w) && forall|j: int|
                            0 <= j < i ==> #[trigger] rest[j] is None;
                    assert(vals[i] == Some(w));
                    assert forall|j: int| 0 <= j < i implies #[trigger] vals[j] is None by {
                        assert(vals[j] == rest[j]);
                    }
                },
                None => {
                    assert forall|j: int| 0 <= j < rest.len() implies #[trigger] vals[j] is None by {
                        assert(vals[j] == rest[j]);
                    }
                    let last = vals.len() - 1;
                    if vals[last] is Some {
                        assert forall|j: int| 0 <= j < last implies #[trigger] vals[j] is None by {
                            assert(vals[j] == rest[j]);
                        }
                    }
                },
            }
        }
    }
}

} // verus!
