//! An unbalanced binary search tree of distinct integers.

use vstd::prelude::*;

verus! {

/// One node of the tree: a value and the subtrees of smaller and of greater
/// values.
#[derive(Debug)]
pub struct TreeNode {
    pub value: i32,
    pub left: Option<Box<TreeNode>>,
    pub right: Option<Box<TreeNode>>,
}

/// The values held by an optional subtree.
pub open spec fn subtree_values(t: Option<Box<TreeNode>>) -> Set<i32>
    decreases t,
{
    match t {
        None => Set::empty(),
        Some(node) => node.values(),
    }
}

/// An optional subtree that is absent or well formed.
pub open spec fn subtree_well_formed(t: Option<Box<TreeNode>>) -> bool
    decreases t,
{
    match t {
        None => true,
        Some(node) => node.well_formed(),
    }
}

impl TreeNode {
    /// The values held by this node and its subtrees.
    pub open spec fn values(self) -> Set<i32>
        decreases self,
    {
        subtree_values(self.left).union(subtree_values(self.right)).insert(self.value)
    }

    /// Smaller values go left and greater values go right, at every node.
    pub open spec fn well_formed(self) -> bool
        decreases self,
    {
        &&& forall|x: i32| subtree_values(self.left).contains(x) ==> x < self.value
        &&& forall|x: i32| subtree_values(self.right).contains(x) ==> x > self.value
        &&& subtree_well_formed(self.left)
        &&& subtree_well_formed(self.right)
    }

    /// A leaf holding `value`.
    pub fn new(value: i32) -> (n: TreeNode)
        ensures
            n.value == value,
            n.left.is_none(),
            n.right.is_none(),
            n.well_formed(),
            n.values() == set![value],
    {
        let n = TreeNode { value, left: None, right: None };
        assert(n.values() =~= set![value]);
        n
    }

    /// Adds `value` below this node where it belongs; a value already held
    /// is left as it is.
    pub fn insert(&mut self, value: i32)
        requires
            old(self).well_formed(),
        ensures
            final(self).well_formed(),
            final(self).values() == old(self).values().insert(value),
            final(self).value == old(self).value,
        decreases *old(self),
    {
        if value < self.value {
            match self.left.take() {
                Some(mut left_child) => {
                    left_child.insert(value);
                    self.left = Some(left_child);
                },
                None => {
                    self.left = Some(Box::new(TreeNode::new(value)));
                },
            }
            assert(subtree_values(self.left) =~= subtree_values(old(self).left).insert(value));
            assert(self.values() =~= old(self).values().insert(value));
        } else if value > self.value {
            match self.right.take() {
                Some(mut right_child) => {
                    right_child.insert(value);
                    self.right = Some(right_child);
                },
                None => {
                    self.right = Some(Box::new(TreeNode::new(value)));
                },
            }
            assert(subtree_values(self.right) =~= subtree_values(old(self).right).insert(value));
            assert(self.values() =~= old(self).values().insert(value));
        } else {
            assert(self.values() =~= old(self).values().insert(value));
        }
    }

    /// Whether `value` is held by this node or below it.
    pub fn search(&self, value: i32) -> (found: bool)
        requires
            self.well_formed(),
        ensures
            found == self.values().contains(value),
        decreases self,
    {
        if value == self.value {
            true
        } else if value < self.value {
            assert(!subtree_values(self.right).contains(value));
            match &self.left {
                Some(left_child) => left_child.search(value),
                None => false,
            }
        } else {
            assert(!subtree_values(self.left).contains(value));
            match &self.right {
                Some(right_child) => right_child.search(value),
                None => false,
            }
        }
    }
}

/// A binary search tree, empty or with a root node.
#[derive(Debug)]
pub struct BinarySearchTree {
    pub root: Option<Box<TreeNode>>,
}

impl BinarySearchTree {
    /// The values held by the tree.
    pub open spec fn values(self) -> Set<i32> {
        subtree_values(self.root)
    }

    /// The tree is ordered at every node.
    pub open spec fn well_formed(self) -> bool {
        subtree_well_formed(self.root)
    }

    /// An empty tree.
    pub fn new() -> (t: BinarySearchTree)
        ensures
            t.well_formed(),
            t.values() == Set::<i32>::empty(),
    {
        BinarySearchTree { root: None }
    }

    /// Adds `value` to the tree; a value already held is left as it is.
    pub fn insert(&mut self, value: i32)
        requires
            old(self).well_formed(),
        ensures
            final(self).well_formed(),
            final(self).values() == old(self).values().insert(value),
    {
        match self.root.take() {
            Some(mut node) => {
                node.insert(value);
                self.root = Some(node);
            },
            None => {
                self.root = Some(Box::new(TreeNode::new(value)));
            },
        }
    }

    /// Whether the tree holds `value`.
    pub fn search(&self, value: i32) -> (found: bool)
        requires
            self.well_formed(),
        ensures
            found == self.values().contains(value),
    {
        match &self.root {
            Some(node) => node.search(value),
            None => false,
        }
    }
}

} // verus!
