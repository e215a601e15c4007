use ownership_kit::tree::Tree;

#[test]
fn parent_link_is_weak_and_breaks_cycle() {
    let mut tree = Tree::new();
    let leaf = tree.add_node(3, Vec::new());
    assert!(tree.parent(&leaf).is_none());
    assert_eq!(tree.strong_count(&leaf), 1);
    assert_eq!(tree.weak_count(&leaf), 0);

    let owned_leaf = tree.clone_handle(&leaf);
    let branch = tree.add_node(5, vec![owned_leaf]);
    tree.set_parent(&leaf, &branch);

    assert_eq!(tree.strong_count(&branch), 1);
    assert_eq!(tree.weak_count(&branch), 1);
    assert_eq!(tree.strong_count(&leaf), 2);
    assert_eq!(tree.weak_count(&leaf), 0);

    let p = tree.parent(&leaf).unwrap();
    assert_eq!(tree.value(&p), 5);
    assert_eq!(tree.strong_count(&branch), 2);
    tree.release(p);
    assert_eq!(tree.strong_count(&branch), 1);

    tree.release(branch);

    assert!(tree.parent(&leaf).is_none());
    assert!(tree.is_live(&leaf));
    assert_eq!(tree.value(&leaf), 3);
    assert_eq!(tree.strong_count(&leaf), 1);
    assert_eq!(tree.weak_count(&leaf), 0);
}

#[test]
fn releasing_root_releases_subtree() {
    let mut tree = Tree::new();
    let leaf = tree.add_node(1, Vec::new());
    let leaf_in_mid = tree.clone_handle(&leaf);
    let mid = tree.add_node(2, vec![leaf_in_mid]);
    let mid_in_root = tree.clone_handle(&mid);
    let root = tree.add_node(3, vec![mid_in_root]);
    tree.set_parent(&leaf, &mid);
    tree.set_parent(&mid, &root);
    tree.release(mid);
    assert_eq!(tree.strong_count(&leaf), 2);
    tree.release(root);
    assert_eq!(tree.strong_count(&leaf), 1);
    assert!(tree.parent(&leaf).is_none());
    assert_eq!(tree.value(&leaf), 1);
}

#[test]
fn reparenting_drops_old_link() {
    let mut tree = Tree::new();
    let child = tree.add_node(1, Vec::new());
    let first = tree.add_node(2, Vec::new());
    let second = tree.add_node(3, Vec::new());
    tree.set_parent(&child, &first);
    assert_eq!(tree.weak_count(&first), 1);
    tree.set_parent(&child, &second);
    assert_eq!(tree.weak_count(&first), 0);
    assert_eq!(tree.weak_count(&second), 1);
    assert_eq!(tree.strong_count(&child), 1);
    assert_eq!(tree.value(&child), 1);
    let p = tree.parent(&child).unwrap();
    assert_eq!(tree.value(&p), 3);
    tree.release(p);
    tree.set_parent(&child, &second);
    assert_eq!(tree.weak_count(&second), 1);
}
