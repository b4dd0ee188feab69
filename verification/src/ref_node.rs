use crate::error::TreeError;
use crate::laws::{
    lemma_balanced_depth, lemma_balanced_extremes, lemma_balanced_in_order, lemma_balanced_size,
    lemma_branch_traversal, lemma_pointwise_traversals,
};
use crate::node::{share, splits, Node};
use std::sync::Arc;
use vstd::arithmetic::power2::pow2;
use vstd::prelude::*;
use vstd::std_specs::cmp::{PartialEqSpec, PartialOrdSpec};

verus! {

/// An immutable binary tree over values that someone else owns: each node
/// holds a reference into the caller's sequence, which the tree cannot
/// outlive. A branch shares its two subtrees with every other handle that was
/// cloned from it.
#[derive(Debug, Hash)]
pub enum RefNode<'a, T> {
    Leaf { value: &'a T },
    Branch { left: Arc<RefNode<'a, T>>, value: &'a T, right: Arc<RefNode<'a, T>> },
}

/// A clone is a new handle on the same tree: it refers to the same value at
/// the root and shares both subtrees with the handle it was made from. No
/// value is cloned.
impl<'a, T> Clone for RefNode<'a, T> {
    fn clone(&self) -> (copy: Self)
        ensures
            copy == *self,
    {
        match self {
            RefNode::Leaf { value } => RefNode::Leaf { value: *value },
            RefNode::Branch { left, value, right } => RefNode::Branch {
                left: share(left),
                value: *value,
                right: share(right),
            },
        }
    }
}

impl<'a, T> RefNode<'a, T> {
    /// The owning tree of the values that this tree refers to.
    pub open spec fn owned(&self) -> Node<T>
        decreases self,
    {
        match *self {
            RefNode::Leaf { value } => Node::Leaf { value: *value },
            RefNode::Branch { left, value, right } => Node::Branch {
                left: Arc::new(left.owned()),
                value: *value,
                right: Arc::new(right.owned()),
            },
        }
    }
}

/// A viewing tree stands for the owning tree of the values it refers to.
impl<'a, T> View for RefNode<'a, T> {
    type V = Node<T>;

    open spec fn view(&self) -> Node<T> {
        self.owned()
    }
}

/// Structural equality: the same shape, and equal values at every position.
impl<'a, T: PartialEq> PartialEq for RefNode<'a, T> {
    fn eq(&self, other: &Self) -> (equal: bool)
        decreases self,
    {
        match (self, other) {
            (RefNode::Leaf { value: l }, RefNode::Leaf { value: r }) => **l == **r,
            (
                RefNode::Branch { value: l, left: l1, right: r1 },
                RefNode::Branch { value: r, left: l2, right: r2 },
            ) => **l == **r && (**l1).eq(&**l2) && (**r1).eq(&**r2),
            _ => false,
        }
    }
}

impl<'a, T: PartialEq> vstd::std_specs::cmp::PartialEqSpecImpl for RefNode<'a, T> {
    open spec fn obeys_eq_spec() -> bool {
        T::obeys_eq_spec()
    }

    open spec fn eq_spec(&self, other: &Self) -> bool {
        self@.pointwise(&other@, Node::<T>::value_eq())
    }
}

impl<'a, T> RefNode<'a, T> {
    /// Builds the balanced tree over `values`, which the caller has sorted.
    /// No value is copied. A sequence that does not split down to single
    /// values is refused: somewhere a subtree would be left without a value.
    pub fn from_vec(values: &'a [T]) -> (built: Result<RefNode<'a, T>, TreeError>)
        ensures
            match built {
                Ok(tree) => {
                    &&& splits(values@.len())
                    &&& tree@ == Node::balanced(values@)
                    &&& tree@.spec_size() == values@.len() <= usize::MAX
                    &&& pow2(tree@.depth()) == values@.len() + 1
                    &&& tree@.in_order() == values@
                    &&& tree@.leftmost() == values@.first()
                    &&& tree@.rightmost() == values@.last()
                },
                Err(e) => e == TreeError::EmptyInput && !splits(values@.len()),
            },
        decreases values@.len(),
    {
        if values.len() == 0 {
            Err(TreeError::EmptyInput)
        } else if values.len() == 1 {
            let v = &values[0];
            proof {
                lemma_balanced_in_order(values@);
                lemma_balanced_size(values@);
                lemma_balanced_depth(values@);
                lemma_balanced_extremes(values@);
            }
            Ok(Self::of_leaf(v))
        } else {
            let len = values.len() / 2;
            let (left, right) = values.split_at(len);
            let (head, tail) = right.split_at(1);
            match Self::from_vec(left) {
                Err(e) => Err(e),
                Ok(left_tree) => match Self::from_vec(tail) {
                    Err(e) => Err(e),
                    Ok(right_tree) => {
                        proof {
                            assert(tail@ =~= values@.subrange(len + 1, values@.len() as int));
                            lemma_balanced_in_order(values@);
                            lemma_balanced_size(values@);
                            lemma_balanced_depth(values@);
                            lemma_balanced_extremes(values@);
                        }
                        Ok(Self::of_branch(left_tree, &head[0], right_tree))
                    },
                },
            }
        }
    }

    pub fn of_leaf(value: &'a T) -> (node: RefNode<'a, T>)
        ensures
            node == (RefNode::Leaf { value }),
            node@ == (Node::Leaf { value: *value }),
    {
        RefNode::Leaf { value }
    }

    pub fn of_branch(left: RefNode<'a, T>, value: &'a T, right: RefNode<'a, T>) -> (node: RefNode<
        'a,
        T,
    >)
        ensures
            node == (RefNode::Branch { left: Arc::new(left), value, right: Arc::new(right) }),
            node@ == (Node::Branch {
                left: Arc::new(left@),
                value: *value,
                right: Arc::new(right@),
            }),
    {
        RefNode::Branch { value, left: Arc::new(left), right: Arc::new(right) }
    }

    pub fn as_value(&self) -> (value: &T)
        ensures
            *value == self@.spec_value(),
    {
        match self {
            RefNode::Leaf { value } => value,
            RefNode::Branch { value, .. } => value,
        }
    }

    /// Consumes the handle and returns the reference that its root holds.
    pub fn to_value_move2(self) -> (value: &'a T)
        ensures
            *value == self@.spec_value(),
    {
        match self {
            RefNode::Leaf { value } => value,
            RefNode::Branch { value, .. } => value,
        }
    }

    pub fn size(&self) -> (n: usize)
        requires
            self@.spec_size() <= usize::MAX,
        ensures
            n == self@.spec_size(),
        decreases self,
    {
        match self {
            RefNode::Leaf { .. } => 1,
            RefNode::Branch { left, right, .. } => 1 + left.size() + right.size(),
        }
    }

    pub fn as_max(&self) -> (value: &T)
        ensures
            *value == self@.rightmost(),
        decreases self,
    {
        match self {
            RefNode::Leaf { value } => value,
            RefNode::Branch { right, .. } => right.as_max(),
        }
    }

    pub fn as_min(&self) -> (value: &T)
        ensures
            *value == self@.leftmost(),
        decreases self,
    {
        match self {
            RefNode::Leaf { value } => value,
            RefNode::Branch { left, .. } => left.as_min(),
        }
    }
}

impl<'a, T> RefNode<'a, T> {
    /// The relation between a value and the value that `f` may return a
    /// reference to for it.
    pub open spec fn output_of<'b, B: 'b, F: FnMut(&'a T) -> &'b B>(f: F) -> spec_fn(T, B) -> bool {
        |a: T, b: B| call_ensures(f, (&a,), &b)
    }

    /// Builds a tree of the same shape that refers to what `f` returns for
    /// the values of this one. `f` is called once for each node: for a
    /// branch's value first, then for its left subtree, then for its right.
    /// Nothing is said of the order among the new values.
    pub fn map<'b, B, F>(&'a self, mut f: F) -> (mapped: RefNode<'b, B>) where
        F: FnMut(&'a T) -> &'b B,
        'b: 'a,

        requires
            self@.accepted_by(f),
        ensures
            self@.pointwise(&mapped@, Self::output_of(f)),
            mapped@.spec_size() == self@.spec_size(),
            mapped@.in_order().len() == self@.in_order().len(),
            forall|i: int|
                0 <= i < self@.in_order().len() ==> call_ensures(
                    f,
                    (&self@.in_order()[i],),
                    &#[trigger] mapped@.in_order()[i],
                ),
    {
        let mapped = self.map_with(&mut f);
        proof {
            lemma_pointwise_traversals(&self@, &mapped@, Self::output_of(f));
        }
        mapped
    }

    fn map_with<'b, B, F>(&'a self, f: &mut F) -> (mapped: RefNode<'b, B>) where
        F: FnMut(&'a T) -> &'b B,
        'b: 'a,

        requires
            self@.accepted_by(*old(f)),
        ensures
            self@.pointwise(&mapped@, Self::output_of(*old(f))),
            mapped@.spec_size() == self@.spec_size(),
            *final(f) == *old(f),
        decreases self,
    {
        match self {
            RefNode::Leaf { value } => {
                assert(self@.in_order()[0] == **value);
                let new_value = f(*value);
                RefNode::Leaf { value: new_value }
            },
            RefNode::Branch { value, left, right } => {
                proof {
                    lemma_branch_traversal(&self@);
                }
                let new_value = f(*value);
                let new_left = Arc::new(left.map_with(f));
                let new_right = Arc::new(right.map_with(f));
                RefNode::Branch { value: new_value, left: new_left, right: new_right }
            },
        }
    }
}

impl<'a, T: Clone> RefNode<'a, T> {
    /// A clone of the value that the root refers to.
    pub fn to_value_clone(&self) -> (value: T)
        ensures
            cloned(self@.spec_value(), value),
    {
        match self {
            RefNode::Leaf { value } => (*value).clone(),
            RefNode::Branch { value, .. } => (*value).clone(),
        }
    }

    /// Consumes the handle and returns a clone of the value that its root
    /// refers to.
    pub fn to_value_move1(self) -> (value: T)
        ensures
            cloned(self@.spec_value(), value),
    {
        match self {
            RefNode::Leaf { value } => value.clone(),
            RefNode::Branch { value, .. } => value.clone(),
        }
    }
}

impl<'a, T: PartialOrd> RefNode<'a, T> {
    /// Looks `value` up by descending from the root, and returns the node
    /// that refers to it. The number of comparisons is bounded by the depth of
    /// the tree, which for a tree that was not built balanced can be its size.
    pub fn find(&'a self, value: T) -> (found: Option<&'a RefNode<'a, T>>)
        ensures
            T::obeys_eq_spec() && T::obeys_partial_cmp_spec() ==> match found {
                Some(node) => self@.search(value) == Some(node@),
                None => self@.search(value) is None,
            },
        decreases self,
    {
        match self {
            RefNode::Leaf { value: v } => if **v == value {
                Some(self)
            } else {
                None
            },
            RefNode::Branch { left, value: v, right } => if **v == value {
                Some(self)
            } else if value < **v {
                left.find(value)
            } else if value > **v {
                right.find(value)
            } else {
                None
            },
        }
    }
}

} // verus!
