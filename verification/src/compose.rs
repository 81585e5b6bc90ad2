//! The decisions of composition: in which order the nodes of a tree are
//! composed, and which of them have their view made again.
use vstd::prelude::*;

verus! {

/// The children of each node, by index; a node's children come after it.
pub open spec fn children_after_parents(children: Seq<Seq<usize>>) -> bool {
    forall|p: int, k: int|
        0 <= p < children.len() && 0 <= k < children[p].len() ==> p < #[trigger] children[p][k]
}

/// The nodes of the tree under `key` in the order they are composed: the
/// node first, then the trees of its children, one after the other.
pub open spec fn preorder(children: Seq<Seq<usize>>, key: usize) -> Seq<usize>
    decreases children.len() - key + 1, 0nat,
{
    if key < children.len() {
        seq![key] + preorder_list(children, key, children[key as int])
    } else {
        seq![key]
    }
}

/// The trees of `kids`, children of `parent`, one after the other.
pub open spec fn preorder_list(children: Seq<Seq<usize>>, parent: usize, kids: Seq<usize>) -> Seq<
    usize,
>
    decreases children.len() - parent, kids.len(),
{
    if kids.len() == 0 {
        Seq::empty()
    } else {
        preorder_list(children, parent, kids.drop_last()) + if parent < kids.last() < children.len() {
            preorder(children, kids.last())
        } else if parent < kids.last() {
            seq![kids.last()]
        } else {
            Seq::empty()
        }
    }
}

/// Appends the composition order of the tree under `key` to `out`.
fn compose_into(children: &Vec<Vec<usize>>, key: usize, out: &mut Vec<usize>)
    requires
        key < children@.len(),
        children_after_parents(children@.map_values(|v: Vec<usize>| v@)),
    ensures
        final(out)@ == old(out)@ + preorder(children@.map_values(|v: Vec<usize>| v@), key),
    decreases children@.len() - key,
{
    let ghost ch = children@.map_values(|v: Vec<usize>| v@);
    let ghost start = out@;
    out.push(key);
    let kids = &children[key];
    let ghost ks = ch[key as int];
    assert(kids@ == ks);
    let mut i: usize = 0;
    while i < kids.len()
        invariant
            0 <= i <= kids@.len(),
            key < children@.len(),
            ch == children@.map_values(|v: Vec<usize>| v@),
            children_after_parents(ch),
            kids@ == ks,
            ks == ch[key as int],
            out@ == start + seq![key] + preorder_list(ch, key, ks.subrange(0, i as int)),
        decreases kids.len() - i,
    {
        let child = kids[i];
        assert(key < child) by {
            assert(ch[key as int][i as int] == child);
        }
        if child < children.len() {
            compose_into(children, child, out);
        } else {
            out.push(child);
        }
        proof {
            let sub = ks.subrange(0, i + 1);
            assert(sub.drop_last() =~= ks.subrange(0, i as int));
            assert(sub.last() == child);
            assert(preorder_list(ch, key, sub) == preorder_list(ch, key, ks.subrange(0, i as int))
                + preorder(ch, child));
            assert(out@ =~= start + seq![key] + preorder_list(ch, key, sub));
        }
        i = i + 1;
    }
    assert(ks.subrange(0, ks.len() as int) =~= ks);
    assert(out@ =~= start + preorder(ch, key));
}

/// The order in which the nodes of the tree under `key` are composed: each
/// node before its children, the children in order.
pub fn compose_order(children: &Vec<Vec<usize>>, key: usize) -> (r: Vec<usize>)
    requires
        children_after_parents(children@.map_values(|v: Vec<usize>| v@)),
    ensures
        r@ == preorder(children@.map_values(|v: Vec<usize>| v@), key),
{
    let mut out: Vec<usize> = Vec::new();
    if key < children.len() {
        compose_into(children, key, &mut out);
    } else {
        out.push(key);
    }
    assert(out@ =~= preorder(children@.map_values(|v: Vec<usize>| v@), key));
    out
}

/// Whether the node at position `i` of a composition makes its view again:
/// the node composed first keeps the view it holds, if it holds one; every
/// node after it is a descendant whose view was taken before it was
/// composed, so it makes a new one.
pub open spec fn remakes_view(i: int, root_has_view: bool) -> bool {
    i > 0 || !root_has_view
}

/// The composition of the tree under `key`, in order: each node with
/// whether it makes its view again.
pub fn compose_plan(children: &Vec<Vec<usize>>, key: usize, root_has_view: bool) -> (r: Vec<
    (usize, bool),
>)
    requires
        children_after_parents(children@.map_values(|v: Vec<usize>| v@)),
    ensures
        r@.len() == preorder(children@.map_values(|v: Vec<usize>| v@), key).len(),
        forall|i: int|
            0 <= i < r@.len() ==> #[trigger] r@[i] == (
                preorder(children@.map_values(|v: Vec<usize>| v@), key)[i],
                remakes_view(i, root_has_view),
            ),
{
    let order = compose_order(children, key);
    let mut r: Vec<(usize, bool)> = Vec::new();
    let mut i: usize = 0;
    while i < order.len()
        invariant
            0 <= i <= order@.len(),
            r@.len() == i,
            forall|k: int| 0 <= k < i ==> #[trigger] r@[k] == (order@[k], remakes_view(k, root_has_view)),
        decreases order.len() - i,
    {
        r.push((order[i], i > 0 || !root_has_view));
        i = i + 1;
    }
    r
}

} // verus!
