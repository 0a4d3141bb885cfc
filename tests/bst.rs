use algo_drills::bst::{BinarySearchTree, TreeNode};

#[test]
fn test_insert_and_search() {
    let mut bst = BinarySearchTree::new();

    assert_eq!(bst.search(1), false);

    bst.insert(5);
    bst.insert(3);
    bst.insert(7);
    bst.insert(2);
    bst.insert(4);

    assert_eq!(bst.search(5), true);
    assert_eq!(bst.search(3), true);
    assert_eq!(bst.search(7), true);
    assert_eq!(bst.search(2), true);
    assert_eq!(bst.search(4), true);

    assert_eq!(bst.search(1), false);
    assert_eq!(bst.search(6), false);
}

#[test]
fn test_insert_duplicate() {
    let mut bst = BinarySearchTree::new();

    bst.insert(1);
    bst.insert(1);

    assert_eq!(bst.search(1), true);

    match bst.root {
        Some(ref node) => {
            assert!(node.left.is_none());
            assert!(node.right.is_none());
        }
        None => panic!("Root should not be None after insertion"),
    }
}

#[test]
fn smaller_values_go_left_and_greater_right() {
    let mut bst = BinarySearchTree::new();
    bst.insert(5);
    bst.insert(3);
    bst.insert(8);
    let root = bst.root.as_ref().unwrap();
    assert_eq!(root.value, 5);
    assert_eq!(root.left.as_ref().unwrap().value, 3);
    assert_eq!(root.right.as_ref().unwrap().value, 8);
}

#[test]
fn tree_node_insert_and_search() {
    let mut node = TreeNode::new(0);
    node.insert(-4);
    node.insert(i32::MAX);
    assert!(node.search(-4));
    assert!(node.search(i32::MAX));
    assert!(!node.search(1));
}
