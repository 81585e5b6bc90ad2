use concoct::semantics::Semantics;
use concoct::text::{TextWidget, ROLE_STATIC_TEXT};

#[test]
fn text_inserts_its_node_once_then_updates_it() {
    let mut s: Semantics<()> = Semantics::default();
    let mut w = TextWidget::new("hello".to_string());
    assert_eq!(w.node_id, None);
    w.semantics(&mut s);
    assert_eq!(w.node_id, Some(1));
    let node = s.nodes.get(&1).unwrap();
    assert_eq!(node.role, ROLE_STATIC_TEXT);
    assert_eq!(node.value.as_deref(), Some("hello"));
    assert_eq!(s.tree_update().nodes.len(), 1);

    w.semantics(&mut s);
    assert_eq!(w.node_id, Some(1));
    assert_eq!(s.nodes.len(), 1);
    assert_eq!(s.tree_update().nodes.len(), 0);

    w.text = "bye".to_string();
    w.semantics(&mut s);
    assert_eq!(s.nodes.get(&1).unwrap().value.as_deref(), Some("bye"));
    let update = s.tree_update();
    assert_eq!(update.nodes.len(), 1);
    assert_eq!(update.nodes[0].0, 1);
}

#[test]
fn text_remove_frees_its_node() {
    let mut s: Semantics<()> = Semantics::default();
    let mut w = TextWidget::new("a".to_string());
    w.remove(&mut s);
    assert!(s.nodes.is_empty());
    w.semantics(&mut s);
    w.remove(&mut s);
    assert!(s.nodes.is_empty());
    assert_eq!(w.node_id, Some(1));
    let mut other = TextWidget::new("b".to_string());
    other.semantics(&mut s);
    assert_eq!(other.node_id, Some(1));
}
