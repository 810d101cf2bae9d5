use rhubarb::tree::Tree;

#[test]
fn tree_insert_find_and_remove() {
    let mut tree: Tree<&str> = Tree::new();
    assert!(tree.find(1).is_none());
    {
        let mut roots = tree.roots_mut();
        let mut one = roots.insert(1, "one");
        assert_eq!(one.branch_id, None);
        assert_eq!(*one.element, "one");
        one.leaves.insert(2, "two");
        roots.insert(3, "three");
    }
    {
        let two = tree.find(2).unwrap();
        assert_eq!(two.branch_id, Some(1));
        assert_eq!(*two.element, "two");
    }
    let mut ids = tree.root_ids();
    ids.sort();
    assert_eq!(ids, vec![1, 3]);
    {
        let two = tree.find_mut(2).unwrap();
        *two.element = "deux";
        let mut leaves = two.leaves;
        leaves.insert(4, "four");
    }
    assert_eq!(*tree.find(2).unwrap().element, "deux");
    assert_eq!(tree.find(4).unwrap().branch_id, Some(2));
    assert_eq!(tree.roots_mut().remove(1), Some("one"));
    assert!(tree.find(1).is_none());
    assert!(tree.find(2).is_none());
    assert!(tree.find(4).is_none());
    assert_eq!(*tree.find(3).unwrap().element, "three");
    assert_eq!(tree.roots_mut().remove(1), None);
    assert_eq!(tree.root_ids(), vec![3]);
}

#[test]
fn tree_leaves_remove_only_their_own() {
    let mut tree: Tree<u32> = Tree::new();
    tree.roots_mut().insert(10, 100).leaves.insert(11, 110);
    {
        let mut ten = tree.find_mut(10).unwrap();
        assert_eq!(ten.leaves.remove(10), None);
        assert_eq!(ten.leaves.remove(11), Some(110));
    }
    assert!(tree.find(11).is_none());
    assert_eq!(*tree.find(10).unwrap().element, 100);
}

#[test]
fn tree_id_paths() {
    let mut tree: Tree<u8> = Tree::new();
    tree.roots_mut().insert(1, 0).leaves.insert(2, 0).leaves.insert(3, 0);
    let node = tree.find(3).unwrap();
    assert_eq!(node.branch_id, Some(2));
    let one = tree.find(1).unwrap();
    assert_eq!(one.branch_id, None);
    let roots = tree.roots_mut();
    assert_eq!(roots.branches.get_id_path(3, None), vec![3, 2, 1]);
    assert_eq!(roots.branches.get_id_path(3, Some(1)), vec![3, 2]);
    assert_eq!(roots.branches.get_id_path(3, Some(3)), Vec::<u64>::new());
    assert_eq!(roots.branches.get_id_path(9, None), Vec::<u64>::new());
}
