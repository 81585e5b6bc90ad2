use concoct::semantics::{Node, Semantics};

fn text_node(text: &str) -> Node {
    Node {
        role: 3,
        name: None,
        value: Some(text.to_string()),
        children: Vec::new(),
    }
}

#[test]
fn ids_start_at_one_and_are_recycled_last_first() {
    let mut s: Semantics<()> = Semantics::default();
    let a = s.insert(text_node("a"));
    let b = s.insert(text_node("b"));
    let c = s.insert(text_node("c"));
    assert_eq!((a, b, c), (1, 2, 3));
    assert!(s.remove(a).is_some());
    assert!(s.remove(c).is_some());
    assert!(s.remove(c).is_none());
    assert_eq!(s.insert(text_node("d")), c);
    assert_eq!(s.insert(text_node("e")), a);
    assert_eq!(s.insert(text_node("f")), 4);
}

#[test]
fn insert_then_remove_gives_the_node_back() {
    let mut s: Semantics<()> = Semantics::default();
    let id = s.insert(text_node("hello"));
    let node = s.remove(id).unwrap();
    assert_eq!(node.value.as_deref(), Some("hello"));
    assert!(s.nodes.is_empty());
}

#[test]
fn groups_collect_their_children() {
    let mut s: Semantics<()> = Semantics::default();
    s.start_group();
    let a = s.insert(text_node("a"));
    let b = s.insert(text_node("b"));
    let group = s.end_group();
    assert_eq!(group, 3);
    assert_eq!(s.nodes[&group].children, vec![a, b]);
    assert_eq!(s.children, vec![vec![group]]);
    let update = s.tree_update();
    let ids: Vec<u128> = update.nodes.iter().map(|(id, _)| *id).collect();
    assert_eq!(ids, vec![a, b, group]);
    assert!(s.tree_update().nodes.is_empty());
}

#[test]
fn update_records_only_changes() {
    let mut s: Semantics<()> = Semantics::default();
    let a = s.insert(text_node("a"));
    s.tree_update();
    s.update(a, text_node("a"));
    assert!(s.tree_update().nodes.is_empty());
    s.update(a, text_node("b"));
    let update = s.tree_update();
    assert_eq!(update.nodes.len(), 1);
    assert_eq!(update.nodes[0].1.value.as_deref(), Some("b"));
    assert_eq!(s.children, vec![vec![a, a, a]]);
}

#[test]
fn merging_group_takes_the_first_child_value() {
    let mut s: Semantics<()> = Semantics::default();
    s.start_group();
    let a = s.insert(Node { role: 0, name: None, value: None, children: Vec::new() });
    let b = s.insert(text_node("first"));
    let c = s.insert(text_node("second"));
    let id = s.end_group_with_node(Node { role: 7, name: None, value: None, children: Vec::new() }, true);
    // the children are removed, and the last of them is handed out again
    assert_eq!(id, c);
    assert!(!s.nodes.contains_key(&a));
    assert!(!s.nodes.contains_key(&b));
    assert_eq!(s.nodes[&id].value.as_deref(), Some("first"));
    assert_eq!(s.nodes[&id].role, 7);
    assert!(s.nodes[&id].children.is_empty());
}

#[test]
fn non_merging_group_keeps_its_children() {
    let mut s: Semantics<()> = Semantics::default();
    s.start_group();
    let a = s.insert(text_node("x"));
    let id = s.end_group_with_node(text_node("own"), false);
    assert_eq!(s.nodes[&id].children, vec![a]);
    assert_eq!(s.nodes[&id].value.as_deref(), Some("own"));
    assert_eq!(id, 2);
}

#[test]
fn end_group_update_replaces_the_children() {
    let mut s: Semantics<()> = Semantics::default();
    let g = s.insert(text_node("g"));
    s.start_group();
    let a = s.insert(text_node("a"));
    s.end_group_update(g);
    assert_eq!(s.nodes[&g].children, vec![a]);
    assert_eq!(s.nodes[&g].value, None);
}

#[test]
fn handlers_are_attached_by_node() {
    let mut s: Semantics<u8> = Semantics::default();
    assert!(!s.contains_handler(1));
    assert_eq!(s.insert_handler(1, 10), None);
    assert_eq!(s.insert_handler(1, 11), Some(10));
    assert!(s.contains_handler(1));
    assert_eq!(s.remove_handler(1), Some(11));
    assert_eq!(s.remove_handler(1), None);
}
