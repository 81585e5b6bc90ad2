//! The decisions of the local reactive object runtime: for each message,
//! which object and which listeners run, and how the listener table and the
//! set of live objects change. The objects and the listener functions are
//! held and called by whoever runs the runtime, by these keys.
use std::collections::{HashMap, HashSet};
use vstd::prelude::*;

verus! {

broadcast use vstd::std_specs::hash::group_hash_axioms;

/// A message to the runtime. `key` names an object, `type_id` the type of
/// a message that objects emit, `id` a listener.
#[derive(Clone, Copy, Debug, PartialEq, Eq, Structural)]
pub enum RuntimeMsg {
    /// The object `key` emits a message of type `type_id`.
    Emit { key: u64, type_id: u64 },
    /// Run a function on the object `key`.
    Handle { key: u64 },
    /// Listen with `id` to the messages of type `type_id` that `key` emits;
    /// `guarded` tells whether the listener comes with a guard for the
    /// object to keep.
    Listen { id: u64, key: u64, type_id: u64, guarded: bool },
    /// Stop the listener `id` on the messages of type `type_id` of `key`.
    RemoveListener { id: u64, key: u64, type_id: u64 },
    /// Drop the object `key`.
    Remove { key: u64 },
}

/// What the runtime calls, in order.
#[derive(Clone, Copy, Debug, PartialEq, Eq, Structural)]
pub enum RuntimeCall {
    /// Run the message's function on the object `key`.
    Object { key: u64 },
    /// Run the listener `id` on the emitted message.
    Listener { id: u64 },
    /// Give the object `key` the guard of the listener `id` to keep.
    KeepGuard { key: u64, id: u64 },
}

/// The listeners of each object and message type, in the order they run.
pub struct Listeners {
    by_key: HashMap<u64, HashMap<u64, Vec<u64>>>,
}

/// The listener ids of `(key, type_id)` in `m`, none when there is no entry.
pub open spec fn ids(m: Map<(u64, u64), Seq<u64>>, key: u64, type_id: u64) -> Seq<u64> {
    if m.contains_key((key, type_id)) {
        m[(key, type_id)]
    } else {
        Seq::empty()
    }
}

/// The first position of `id` in `s`.
pub open spec fn first_position(s: Seq<u64>, id: u64) -> int {
    choose|i: int| 0 <= i < s.len() && s[i] == id && forall|j: int| 0 <= j < i ==> s[j] != id
}

/// `m` with the first `id` in the entry of `kt` dropped, if there is one.
pub open spec fn remove_first(m: Map<(u64, u64), Seq<u64>>, kt: (u64, u64), id: u64) -> Map<
    (u64, u64),
    Seq<u64>,
> {
    if m.contains_key(kt) && m[kt].contains(id) {
        m.insert(kt, m[kt].remove(first_position(m[kt], id)))
    } else {
        m
    }
}

impl View for Listeners {
    type V = Map<(u64, u64), Seq<u64>>;

    closed spec fn view(&self) -> Map<(u64, u64), Seq<u64>> {
        Map::new(
            |kt: (u64, u64)|
                self.by_key@.contains_key(kt.0) && self.by_key@[kt.0]@.contains_key(kt.1),
            |kt: (u64, u64)| self.by_key@[kt.0]@[kt.1]@,
        )
    }
}

/// The ids of a listener list, as values.
pub open spec fn listener_calls(ids: Seq<u64>) -> Seq<RuntimeCall> {
    ids.map_values(|id: u64| RuntimeCall::Listener { id })
}

impl Listeners {
    /// A table without listeners.
    pub fn new() -> (r: Listeners)
        ensures
            r@ == Map::<(u64, u64), Seq<u64>>::empty(),
    {
        let r = Listeners { by_key: HashMap::new() };
        assert(r@ =~= Map::<(u64, u64), Seq<u64>>::empty());
        r
    }

    /// The entry of `(key, type_id)`, if there is one.
    fn lookup(&self, key: u64, type_id: u64) -> (r: Option<Vec<u64>>)
        ensures
            match r {
                Some(v) => self@.contains_key((key, type_id)) && v@ == self@[(key, type_id)],
                None => !self@.contains_key((key, type_id)),
            },
    {
        match self.by_key.get(&key) {
            Some(inner) => match inner.get(&type_id) {
                Some(v) => Some(v.clone()),
                None => None,
            },
            None => None,
        }
    }

    /// The listeners of `(key, type_id)`, in order.
    pub fn get(&self, key: u64, type_id: u64) -> (r: Vec<u64>)
        ensures
            r@ == ids(self@, key, type_id),
    {
        match self.lookup(key, type_id) {
            Some(v) => v,
            None => Vec::new(),
        }
    }

    /// Makes `list` the listeners of `(key, type_id)`.
    pub fn set(&mut self, key: u64, type_id: u64, list: Vec<u64>)
        ensures
            final(self)@ == old(self)@.insert((key, type_id), list@),
    {
        let ghost l = list@;
        let mut inner = match self.by_key.remove(&key) {
            Some(inner) => inner,
            None => HashMap::new(),
        };
        inner.insert(type_id, list);
        self.by_key.insert(key, inner);
        assert(self@ =~= old(self)@.insert((key, type_id), l));
    }

    /// Drops the first listener `id` of `(key, type_id)`, if there is one.
    pub fn remove_listener(&mut self, id: u64, key: u64, type_id: u64)
        ensures
            final(self)@ == remove_first(old(self)@, (key, type_id), id),
    {
        let current = self.lookup(key, type_id);
        if let Some(mut list) = current {
            let ghost s = list@;
            let mut i: usize = 0;
            while i < list.len()
                invariant
                    0 <= i <= list@.len(),
                    list@ == s,
                    *self == *old(self),
                    old(self)@.contains_key((key, type_id)),
                    s == old(self)@[(key, type_id)],
                    forall|j: int| 0 <= j < i ==> s[j] != id,
                decreases list.len() - i,
            {
                if list[i] == id {
                    proof {
                        let k = first_position(s, id);
                        assert(0 <= k < s.len() && s[k] == id && forall|j: int| 0 <= j < k ==> s[j] != id);
                        if k < i {
                            assert(s[k] != id);
                        } else if k > i {
                            assert(s[i as int] != id);
                        }
                    }
                    assert(s.contains(id));
                    list.remove(i);
                    self.set(key, type_id, list);
                    return;
                }
                i = i + 1;
            }
            assert(!s.contains(id));
        }
    }
}

/// The objects alive in the runtime.
pub struct NodeTable {
    keys: HashSet<u64>,
}

impl View for NodeTable {
    type V = Set<u64>;

    closed spec fn view(&self) -> Set<u64> {
        self.keys@
    }
}

impl NodeTable {
    /// A table without objects.
    pub fn new() -> (r: NodeTable)
        ensures
            r@ == Set::<u64>::empty(),
    {
        NodeTable { keys: HashSet::new() }
    }

    /// Records the object `key` as alive.
    pub fn insert(&mut self, key: u64)
        ensures
            final(self)@ == old(self)@.insert(key),
    {
        self.keys.insert(key);
    }

    /// Whether the object `key` is alive.
    pub fn contains(&self, key: u64) -> (r: bool)
        ensures
            r == self@.contains(key),
    {
        self.keys.contains(&key)
    }
}

/// The messages the runtime can take: those that run an object need it
/// alive.
pub open spec fn runtime_accepts(nodes: Set<u64>, msg: RuntimeMsg) -> bool {
    match msg {
        RuntimeMsg::Emit { key, .. } => nodes.contains(key),
        RuntimeMsg::Handle { key } => nodes.contains(key),
        RuntimeMsg::Listen { key, .. } => nodes.contains(key),
        _ => true,
    }
}

/// Takes one message: an emit runs the object, then the listeners of its
/// key and message type in order; a listen makes the new listener the only
/// one of its key and type, lets the object see it, and hands the object
/// the guard if there is one; removing a listener drops its first entry;
/// removing an object drops it.
pub fn runtime_step(listeners: &mut Listeners, nodes: &mut NodeTable, msg: RuntimeMsg) -> (calls: Vec<
    RuntimeCall,
>)
    requires
        runtime_accepts(old(nodes)@, msg),
    ensures
        match msg {
            RuntimeMsg::Emit { key, type_id } => {
                &&& calls@ == seq![RuntimeCall::Object { key }] + listener_calls(
                    ids(old(listeners)@, key, type_id),
                )
                &&& final(listeners)@ == old(listeners)@
                &&& final(nodes)@ == old(nodes)@
            },
            RuntimeMsg::Handle { key } => {
                &&& calls@ == seq![RuntimeCall::Object { key }]
                &&& final(listeners)@ == old(listeners)@
                &&& final(nodes)@ == old(nodes)@
            },
            RuntimeMsg::Listen { id, key, type_id, guarded } => {
                &&& calls@ == seq![RuntimeCall::Object { key }] + if guarded {
                    seq![RuntimeCall::KeepGuard { key, id }]
                } else {
                    seq![]
                }
                &&& final(listeners)@ == old(listeners)@.insert((key, type_id), seq![id])
                &&& final(nodes)@ == old(nodes)@
            },
            RuntimeMsg::RemoveListener { id, key, type_id } => {
                &&& calls@.len() == 0
                &&& final(listeners)@ == remove_first(old(listeners)@, (key, type_id), id)
                &&& final(nodes)@ == old(nodes)@
            },
            RuntimeMsg::Remove { key } => {
                &&& calls@.len() == 0
                &&& final(listeners)@ == old(listeners)@
                &&& final(nodes)@ == old(nodes)@.remove(key)
            },
        },
{
    let mut calls: Vec<RuntimeCall> = Vec::new();
    match msg {
        RuntimeMsg::Emit { key, type_id } => {
            calls.push(RuntimeCall::Object { key });
            let list = listeners.get(key, type_id);
            let mut i: usize = 0;
            while i < list.len()
                invariant
                    0 <= i <= list@.len(),
                    calls@ == seq![RuntimeCall::Object { key }] + listener_calls(
                        list@.subrange(0, i as int),
                    ),
                decreases list.len() - i,
            {
                calls.push(RuntimeCall::Listener { id: list[i] });
                proof {
                    assert(listener_calls(list@.subrange(0, i + 1)) =~= listener_calls(
                        list@.subrange(0, i as int),
                    ).push(RuntimeCall::Listener { id: list@[i as int] }));
                }
                i = i + 1;
            }
            assert(list@.subrange(0, list@.len() as int) =~= list@);
        },
        RuntimeMsg::Handle { key } => {
            calls.push(RuntimeCall::Object { key });
        },
        RuntimeMsg::Listen { id, key, type_id, guarded } => {
            let mut list: Vec<u64> = Vec::new();
            list.push(id);
            listeners.set(key, type_id, list);
            calls.push(RuntimeCall::Object { key });
            if guarded {
                calls.push(RuntimeCall::KeepGuard { key, id });
            }
            assert(calls@ =~= seq![RuntimeCall::Object { key }] + if guarded {
                seq![RuntimeCall::KeepGuard { key, id }]
            } else {
                seq![]
            });
        },
        RuntimeMsg::RemoveListener { id, key, type_id } => {
            listeners.remove_listener(id, key, type_id);
        },
        RuntimeMsg::Remove { key } => {
            nodes.keys.remove(&key);
        },
    }
    calls
}

/// A listener that is the last to listen to a key and message type is the
/// one that an emit of that type runs, right after the object.
pub proof fn law_emit_runs_the_latest_listener(
    m: Map<(u64, u64), Seq<u64>>,
    id: u64,
    key: u64,
    type_id: u64,
)
    ensures
        seq![RuntimeCall::Object { key }] + listener_calls(
            ids(m.insert((key, type_id), seq![id]), key, type_id),
        ) == seq![RuntimeCall::Object { key }, RuntimeCall::Listener { id }],
{
    assert(seq![RuntimeCall::Object { key }] + listener_calls(
        ids(m.insert((key, type_id), seq![id]), key, type_id),
    ) =~= seq![RuntimeCall::Object { key }, RuntimeCall::Listener { id }]);
}

/// Removing a listener right after it started listening leaves its key and
/// message type without listeners.
pub proof fn law_remove_after_listen(m: Map<(u64, u64), Seq<u64>>, id: u64, key: u64, type_id: u64)
    ensures
        ids(remove_first(m.insert((key, type_id), seq![id]), (key, type_id), id), key, type_id)
            == Seq::<u64>::empty(),
{
    let s = seq![id];
    assert(s[0] == id);
    let k = first_position(s, id);
    assert(k == 0);
    assert(s.remove(0) =~= Seq::<u64>::empty());
}

} // verus!
