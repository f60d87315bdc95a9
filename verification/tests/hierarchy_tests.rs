use sparrow::hierarchy::AttachMode;
use sparrow::hierarchy::SceneNode;
use sparrow::hierarchy::SceneTree;
use sparrow::hierarchy::attachment_target;

fn node(id: u64, parent: Option<u64>, name: &str, has_metadata: bool, instance: Option<u64>)
    -> SceneNode {
    SceneNode { id, parent, name: name.to_string(), has_metadata, instance }
}

/// A small instantiation: root 1 tags instance 9; nodes 2 and 3 sit under it,
/// node 4 and 5 under node 3.
fn sample_tree() -> SceneTree {
    let mut t = SceneTree::new();
    t.add_node(node(1, None, "Root", false, Some(9))).unwrap();
    t.add_node(node(2, Some(1), "Door", true, None)).unwrap();
    t.add_node(node(3, Some(1), "Frame", true, None)).unwrap();
    t.add_node(node(4, Some(3), "Hinge", true, None)).unwrap();
    t.add_node(node(5, Some(3), "Latch", false, None)).unwrap();
    t
}

fn children_of(t: &SceneTree, p: u64) -> Vec<u64> {
    t.nodes.iter().filter(|n| n.parent == Some(p)).map(|n| n.id).collect()
}

#[test]
fn duplicate_node_id_is_refused() {
    let mut t = SceneTree::new();
    t.add_node(node(1, None, "Root", false, None)).unwrap();
    assert!(t.add_node(node(1, None, "Clone", false, None)).is_err());
    assert_eq!(t.nodes.len(), 1);
}

#[test]
fn name_table_is_restricted_to_one_instantiation() {
    let mut t = sample_tree();
    // a second instantiation of the same authored content
    t.add_node(node(11, None, "Root", false, Some(10))).unwrap();
    t.add_node(node(14, Some(11), "Hinge", true, None)).unwrap();
    let table_a = t.build_name_table(9);
    assert_eq!(
        table_a,
        vec![
            ("Door".to_string(), 2u64),
            ("Frame".to_string(), 3u64),
            ("Hinge".to_string(), 4u64),
        ]
    );
    let table_b = t.build_name_table(10);
    assert_eq!(table_b, vec![("Hinge".to_string(), 14u64)]);
}

#[test]
fn ancestor_walk_is_bounded() {
    let mut t = SceneTree::new();
    // a cyclic parent chain never reaches an instantiation root
    t.add_node(node(1, Some(2), "A", true, None)).unwrap();
    t.add_node(node(2, Some(1), "B", true, None)).unwrap();
    let table = t.build_name_table(9);
    assert!(table.is_empty());
}

#[test]
fn flatten_moves_children_up_and_discards_the_node() {
    let mut t = sample_tree();
    let before_parent = children_of(&t, 1);
    assert_eq!(before_parent, vec![2, 3]);
    let pid = t.flatten_into_parent(3).unwrap();
    assert_eq!(pid, 1);
    // the parent now has exactly its prior children, less node 3, plus 3's
    // children; node 3 itself is gone
    let after_parent = children_of(&t, 1);
    assert_eq!(after_parent, vec![2, 4, 5]);
    assert!(t.find_by_id(3).is_none());
    assert_eq!(t.nodes.len(), 4);
    // no other node was lost
    assert!(t.find_by_id(2).is_some());
    assert!(t.find_by_id(4).is_some());
    assert!(t.find_by_id(5).is_some());
}

#[test]
fn flatten_missing_or_rootless_node_fails_fast() {
    let mut t = sample_tree();
    assert!(t.flatten_into_parent(77).is_err());
    assert!(t.flatten_into_parent(1).is_err());
    assert_eq!(t.nodes.len(), 5);
    assert_eq!(children_of(&t, 1), vec![2, 3]);
}

#[test]
fn attachment_target_follows_the_mode() {
    assert_eq!(attachment_target(AttachMode::Direct, 4, Some(3)), 4);
    assert_eq!(attachment_target(AttachMode::Flatten, 4, Some(3)), 3);
    assert_eq!(attachment_target(AttachMode::Flatten, 4, None), 4);
}
