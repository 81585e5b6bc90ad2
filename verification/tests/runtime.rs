use concoct::compose::{compose_order, compose_plan};
use concoct::runtime::{runtime_step, Listeners, NodeTable, RuntimeCall, RuntimeMsg};

#[test]
fn emit_runs_the_object_then_its_listeners() {
    let mut l = Listeners::new();
    let mut n = NodeTable::new();
    n.insert(1);
    assert_eq!(
        runtime_step(&mut l, &mut n, RuntimeMsg::Emit { key: 1, type_id: 7 }),
        vec![RuntimeCall::Object { key: 1 }]
    );
    assert_eq!(
        runtime_step(&mut l, &mut n, RuntimeMsg::Listen { id: 10, key: 1, type_id: 7, guarded: true }),
        vec![RuntimeCall::Object { key: 1 }, RuntimeCall::KeepGuard { key: 1, id: 10 }]
    );
    assert_eq!(
        runtime_step(&mut l, &mut n, RuntimeMsg::Emit { key: 1, type_id: 7 }),
        vec![RuntimeCall::Object { key: 1 }, RuntimeCall::Listener { id: 10 }]
    );
    // A new listener replaces the list.
    runtime_step(&mut l, &mut n, RuntimeMsg::Listen { id: 11, key: 1, type_id: 7, guarded: false });
    assert_eq!(l.get(1, 7), vec![11]);
    assert_eq!(
        runtime_step(&mut l, &mut n, RuntimeMsg::Emit { key: 1, type_id: 8 }),
        vec![RuntimeCall::Object { key: 1 }]
    );
}

#[test]
fn remove_listener_drops_the_first_match() {
    let mut l = Listeners::new();
    let mut n = NodeTable::new();
    l.set(2, 3, vec![5, 6, 5]);
    assert_eq!(
        runtime_step(&mut l, &mut n, RuntimeMsg::RemoveListener { id: 5, key: 2, type_id: 3 }),
        vec![]
    );
    assert_eq!(l.get(2, 3), vec![6, 5]);
    runtime_step(&mut l, &mut n, RuntimeMsg::RemoveListener { id: 9, key: 2, type_id: 3 });
    assert_eq!(l.get(2, 3), vec![6, 5]);
    runtime_step(&mut l, &mut n, RuntimeMsg::RemoveListener { id: 5, key: 4, type_id: 3 });
    assert_eq!(l.get(4, 3), vec![]);
}

#[test]
fn handle_and_remove_objects() {
    let mut l = Listeners::new();
    let mut n = NodeTable::new();
    n.insert(4);
    assert_eq!(
        runtime_step(&mut l, &mut n, RuntimeMsg::Handle { key: 4 }),
        vec![RuntimeCall::Object { key: 4 }]
    );
    assert_eq!(runtime_step(&mut l, &mut n, RuntimeMsg::Remove { key: 4 }), vec![]);
    assert!(!n.contains(4));
}

#[test]
fn only_the_first_node_keeps_its_view() {
    let children = vec![vec![1, 2], vec![], vec![]];
    assert_eq!(compose_plan(&children, 0, true), vec![(0, false), (1, true), (2, true)]);
    assert_eq!(compose_plan(&children, 0, false), vec![(0, true), (1, true), (2, true)]);
}

#[test]
fn nodes_are_composed_before_their_children() {
    // 0 -> [1, 3], 1 -> [2], 3 -> [4]
    let children = vec![vec![1, 3], vec![2], vec![], vec![4], vec![]];
    assert_eq!(compose_order(&children, 0), vec![0, 1, 2, 3, 4]);
    assert_eq!(compose_order(&children, 3), vec![3, 4]);
    assert_eq!(compose_order(&children, 9), vec![9]);
}
