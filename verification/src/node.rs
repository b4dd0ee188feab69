use crate::error::TreeError;
use crate::laws::{
    lemma_balanced_depth, lemma_balanced_in_order, lemma_extremes_end_traversal,
    lemma_pointwise_traversals, lemma_size_counts_values,
};
use std::sync::Arc;
use vstd::arithmetic::power2::pow2;
use vstd::prelude::*;
use vstd::std_specs::cmp::{PartialEqSpec, PartialOrdIs, PartialOrdSpec};

verus! {

/// An immutable binary tree that owns its values. A leaf holds one value; a
/// branch holds one value and two subtrees, which it shares with every other
/// handle that was cloned from it. No operation changes a node once it is
/// made, so handles can be read from several threads at once.
#[derive(Debug, Hash)]
pub enum Node<T> {
    Leaf { value: T },
    Branch { left: Arc<Node<T>>, value: T, right: Arc<Node<T>> },
}

/// `Arc::clone` of std: one more handle to the same allocation, so that what
/// the new handle points to is what `handle` points to.
#[verifier::external_body]
pub(crate) fn share<T>(handle: &Arc<T>) -> (shared: Arc<T>)
    ensures
        shared == *handle,
{
    Arc::clone(handle)
}

/// A clone is a new handle on the same tree: it holds a clone of the value
/// of the root and shares both subtrees with the handle it was made from.
impl<T: Clone> Clone for Node<T> {
    fn clone(&self) -> (copy: Self)
        ensures
            self.shared_by(&copy),
    {
        match self {
            Node::Leaf { value } => Node::Leaf { value: value.clone() },
            Node::Branch { left, value, right } => Node::Branch {
                left: share(left),
                value: value.clone(),
                right: share(right),
            },
        }
    }
}

/// Whether a sequence of `len` values can be split down to single values:
/// one value is a leaf; more are halved around the value after the midpoint,
/// and both halves must themselves split. No values do not split.
pub open spec fn splits(len: nat) -> bool
    decreases len,
{
    if len <= 1 {
        len == 1
    } else {
        splits(len / 2) && splits((len - len / 2 - 1) as nat)
    }
}

impl<T> Node<T> {
    /// The value held by the root.
    pub open spec fn spec_value(&self) -> T {
        match *self {
            Node::Leaf { value } => value,
            Node::Branch { value, .. } => value,
        }
    }

    /// The number of nodes: one for a leaf; for a branch one more than its
    /// two subtrees together. A subtree that is shared counts wherever it
    /// stands.
    pub open spec fn spec_size(&self) -> nat
        decreases self,
    {
        match *self {
            Node::Leaf { .. } => 1,
            Node::Branch { left, right, .. } => 1 + left.spec_size() + right.spec_size(),
        }
    }

    /// The number of nodes on the longest way from the root down to a leaf.
    pub open spec fn depth(&self) -> nat
        decreases self,
    {
        match *self {
            Node::Leaf { .. } => 1,
            Node::Branch { left, right, .. } => if left.depth() >= right.depth() {
                1 + left.depth()
            } else {
                1 + right.depth()
            },
        }
    }

    /// The values from left to right: those of the left subtree, the value
    /// of the root, those of the right subtree.
    pub open spec fn in_order(&self) -> Seq<T>
        decreases self,
    {
        match *self {
            Node::Leaf { value } => seq![value],
            Node::Branch { left, value, right } => left.in_order() + seq![value]
                + right.in_order(),
        }
    }

    /// The value reached by always descending to the left.
    pub open spec fn leftmost(&self) -> T
        decreases self,
    {
        match *self {
            Node::Leaf { value } => value,
            Node::Branch { left, .. } => left.leftmost(),
        }
    }

    /// The value reached by always descending to the right.
    pub open spec fn rightmost(&self) -> T
        decreases self,
    {
        match *self {
            Node::Leaf { value } => value,
            Node::Branch { right, .. } => right.rightmost(),
        }
    }

    /// The tree that the balanced builder makes of `values`: a leaf of one
    /// value; of more, a branch that holds the value after the midpoint,
    /// above the tree of the values before it and the tree of those after it.
    pub open spec fn balanced(values: Seq<T>) -> Node<T>
        recommends
            splits(values.len()),
        decreases values.len(),
    {
        if values.len() <= 1 {
            Node::Leaf { value: values[0] }
        } else {
            let mid = (values.len() / 2) as int;
            Node::Branch {
                left: Arc::new(Self::balanced(values.subrange(0, mid))),
                value: values[mid],
                right: Arc::new(Self::balanced(values.subrange(mid + 1, values.len() as int))),
            }
        }
    }

    /// Whether `part` is this tree or one of the subtrees below it.
    pub open spec fn has_subtree(&self, part: Node<T>) -> bool
        decreases self,
    {
        *self == part || match *self {
            Node::Leaf { .. } => false,
            Node::Branch { left, right, .. } => left.has_subtree(part) || right.has_subtree(part),
        }
    }

    /// Both trees have the same shape, and `rel` holds between the two values
    /// at every position.
    pub open spec fn pointwise<B>(&self, other: &Node<B>, rel: spec_fn(T, B) -> bool) -> bool
        decreases self,
    {
        match (*self, *other) {
            (Node::Leaf { value: a }, Node::Leaf { value: b }) => rel(a, b),
            (
                Node::Branch { left: l1, value: a, right: r1 },
                Node::Branch { left: l2, value: b, right: r2 },
            ) => rel(a, b) && l1.pointwise(&*l2, rel) && r1.pointwise(&*r2, rel),
            _ => false,
        }
    }

    /// A tree of one node.
    pub fn of_leaf(value: T) -> (node: Node<T>)
        ensures
            node == (Node::Leaf { value }),
    {
        Node::Leaf { value }
    }

    /// A tree with `value` at the root, above `left` and `right`. Whether
    /// the values of `left` are less than `value` and those of `right`
    /// greater is not looked at.
    pub fn of_branch(left: Node<T>, value: T, right: Node<T>) -> (node: Node<T>)
        ensures
            node == (Node::Branch { left: Arc::new(left), value, right: Arc::new(right) }),
    {
        Node::Branch { value, left: Arc::new(left), right: Arc::new(right) }
    }

    /// The value held by the root.
    pub fn as_value(&self) -> (value: &T)
        ensures
            *value == self.spec_value(),
    {
        match self {
            Node::Leaf { value } => value,
            Node::Branch { value, .. } => value,
        }
    }

    /// Counts the nodes, anew at every call. With shared subtrees the count
    /// can exceed what the machine's word holds, which the caller rules out.
    pub fn size(&self) -> (n: usize)
        requires
            self.spec_size() <= usize::MAX,
        ensures
            n == self.spec_size(),
        decreases self,
    {
        match self {
            Node::Leaf { .. } => 1,
            Node::Branch { left, right, .. } => 1 + left.size() + right.size(),
        }
    }

    /// The rightmost value, which is the greatest where the tree is a
    /// search tree.
    pub fn as_max(&self) -> (value: &T)
        ensures
            *value == self.rightmost(),
        decreases self,
    {
        match self {
            Node::Leaf { value } => value,
            Node::Branch { right, .. } => right.as_max(),
        }
    }

    /// The leftmost value, which is the least where the tree is a search
    /// tree.
    pub fn as_min(&self) -> (value: &T)
        ensures
            *value == self.leftmost(),
        decreases self,
    {
        match self {
            Node::Leaf { value } => value,
            Node::Branch { left, .. } => left.as_min(),
        }
    }

    /// The relation between a value and what `f` may return for it.
    pub open spec fn output_of<'a, B, F: FnMut(&'a T) -> B>(f: F) -> spec_fn(T, B) -> bool where
        T: 'a,
    {
        |a: T, b: B| call_ensures(f, (&a,), b)
    }

    /// Whether `f` accepts every value of the tree.
    pub open spec fn accepted_by<'a, B, F: FnMut(&'a T) -> B>(&self, f: F) -> bool where T: 'a {
        forall|i: int| 0 <= i < self.in_order().len() ==> call_requires(f, (&self.in_order()[i],))
    }

    /// Builds a tree of the same shape whose values are what `f` returns for
    /// the values of this one, position by position. Every node of the result
    /// is new. `f` is called once for each node: for a branch's value first,
    /// then for its left subtree, then for its right. The new values are not
    /// compared: the result need not be a search tree.
    pub fn map<'a, B, F>(&'a self, mut f: F) -> (mapped: Node<B>) where F: FnMut(&'a T) -> B
        requires
            self.accepted_by(f),
        ensures
            self.pointwise(&mapped, Self::output_of(f)),
            mapped.spec_size() == self.spec_size(),
            mapped.in_order().len() == self.in_order().len(),
            forall|i: int|
                0 <= i < self.in_order().len() ==> call_ensures(
                    f,
                    (&self.in_order()[i],),
                    #[trigger] mapped.in_order()[i],
                ),
    {
        let mapped = self.map_with(&mut f);
        proof {
            lemma_pointwise_traversals(self, &mapped, Self::output_of(f));
        }
        mapped
    }

    fn map_with<'a, B, F>(&'a self, f: &mut F) -> (mapped: Node<B>) where F: FnMut(&'a T) -> B
        requires
            self.accepted_by(*old(f)),
        ensures
            self.pointwise(&mapped, Self::output_of(*old(f))),
            mapped.spec_size() == self.spec_size(),
            *final(f) == *old(f),
        decreases self,
    {
        match self {
            Node::Leaf { value } => {
                assert(self.in_order()[0] == *value);
                let new_value = f(value);
                Node::Leaf { value: new_value }
            },
            Node::Branch { value, left, right } => {
                proof {
                    let n = left.in_order().len() as int;
                    assert(self.in_order()[n] == *value);
                    assert forall|i: int| 0 <= i < left.in_order().len() implies call_requires(
                        *f,
                        (&left.in_order()[i],),
                    ) by {
                        assert(self.in_order()[i] == left.in_order()[i]);
                    }
                    assert forall|i: int| 0 <= i < right.in_order().len() implies call_requires(
                        *f,
                        (&right.in_order()[i],),
                    ) by {
                        assert(self.in_order()[n + 1 + i] == right.in_order()[i]);
                    }
                }
                let new_value = f(value);
                let new_left = Arc::new(left.map_with(f));
                let new_right = Arc::new(right.map_with(f));
                Node::Branch { value: new_value, left: new_left, right: new_right }
            },
        }
    }
}

impl<T: Clone> Node<T> {
    /// Whether `copy` may be a clone of this handle: the same kind of node,
    /// with a clone of the value of the root above the very same subtrees.
    pub open spec fn shared_by(&self, copy: &Node<T>) -> bool {
        match (*self, *copy) {
            (Node::Leaf { value: a }, Node::Leaf { value: b }) => cloned(a, b),
            (
                Node::Branch { left: l1, value: a, right: r1 },
                Node::Branch { left: l2, value: b, right: r2 },
            ) => cloned(a, b) && l1 == l2 && r1 == r2,
            _ => false,
        }
    }

    /// The relation between a value and what cloning it may give.
    pub open spec fn clone_of() -> spec_fn(T, T) -> bool {
        |a: T, b: T| cloned(a, b)
    }

    /// Builds the balanced tree of `values` from clones of the values. The
    /// caller has sorted `values`: the builder compares nothing, it places
    /// each value by its position. A sequence that does not split down to
    /// single values is refused, because somewhere a subtree would be left
    /// without a value; no values are refused for the same reason. The depth
    /// of the tree is the logarithm of its size.
    pub fn from_vec(values: &[T]) -> (built: Result<Node<T>, TreeError>)
        ensures
            match built {
                Ok(tree) => {
                    &&& splits(values@.len())
                    &&& Self::balanced(values@).pointwise(&tree, Self::clone_of())
                    &&& tree.spec_size() == values@.len() <= usize::MAX
                    &&& pow2(tree.depth()) == values@.len() + 1
                    &&& tree.in_order().len() == values@.len()
                    &&& forall|i: int|
                        0 <= i < values@.len() ==> cloned(values@[i], #[trigger] tree.in_order()[i])
                    &&& cloned(values@.first(), tree.leftmost())
                    &&& cloned(values@.last(), tree.rightmost())
                },
                Err(e) => e == TreeError::EmptyInput && !splits(values@.len()),
            },
        decreases values@.len(),
    {
        if values.len() == 0 {
            Err(TreeError::EmptyInput)
        } else if values.len() == 1 {
            let tree = Self::of_leaf(values[0].clone());
            proof {
                Self::lemma_built(values@, &tree);
            }
            Ok(tree)
        } else {
            let len = values.len() / 2;
            let (left, right) = values.split_at(len);
            let (head, tail) = right.split_at(1);
            match Self::from_vec(left) {
                Err(e) => Err(e),
                Ok(left_tree) => {
                    let value = head[0].clone();
                    match Self::from_vec(tail) {
                        Err(e) => Err(e),
                        Ok(right_tree) => {
                            let tree = Self::of_branch(left_tree, value, right_tree);
                            proof {
                                assert(tail@ =~= values@.subrange(len + 1, values@.len() as int));
                                Self::lemma_built(values@, &tree);
                            }
                            Ok(tree)
                        },
                    }
                },
            }
        }
    }

    proof fn lemma_built(values: Seq<T>, tree: &Node<T>)
        requires
            splits(values.len()),
            Self::balanced(values).pointwise(tree, Self::clone_of()),
        ensures
            tree.spec_size() == values.len(),
            pow2(tree.depth()) == values.len() + 1,
            tree.in_order().len() == values.len(),
            forall|i: int|
                0 <= i < values.len() ==> cloned(values[i], #[trigger] tree.in_order()[i]),
            cloned(values.first(), tree.leftmost()),
            cloned(values.last(), tree.rightmost()),
    {
        let model = Self::balanced(values);
        lemma_balanced_in_order(values);
        lemma_balanced_depth(values);
        lemma_pointwise_traversals(&model, tree, Self::clone_of());
        lemma_size_counts_values(tree);
        lemma_extremes_end_traversal(tree);
        assert(Self::clone_of()(values[0], tree.in_order()[0]));
        assert(Self::clone_of()(values[values.len() - 1], tree.in_order()[values.len() - 1]));
    }
}

impl<T: PartialEq> Node<T> {
    /// The relation that `==` on values computes.
    pub open spec fn value_eq() -> spec_fn(T, T) -> bool {
        |a: T, b: T| a.eq_spec(&b)
    }
}

/// Structural equality: the same shape, and equal values at every position.
/// A leaf never equals a branch, and a branch does not equal the branch with
/// its subtrees exchanged unless they are equal. Whether two trees share
/// storage plays no part.
impl<T: PartialEq> PartialEq for Node<T> {
    fn eq(&self, other: &Self) -> (equal: bool)
        decreases self,
    {
        match (self, other) {
            (Node::Leaf { value: l }, Node::Leaf { value: r }) => *l == *r,
            (
                Node::Branch { value: l, left: l1, right: r1 },
                Node::Branch { value: r, left: l2, right: r2 },
            ) => *l == *r && (**l1).eq(&**l2) && (**r1).eq(&**r2),
            _ => false,
        }
    }
}

impl<T: PartialEq> vstd::std_specs::cmp::PartialEqSpecImpl for Node<T> {
    open spec fn obeys_eq_spec() -> bool {
        T::obeys_eq_spec()
    }

    open spec fn eq_spec(&self, other: &Self) -> bool {
        self.pointwise(other, Self::value_eq())
    }
}

impl<T: PartialOrd> Node<T> {
    /// The subtree at which a descent from the root stops for `target`: at the
    /// first node whose value equals `target`; left where `target` is less
    /// than the node's value and right where it is greater; nowhere once a
    /// leaf differs from `target` or a branch's value is neither equal to,
    /// greater than, nor less than it.
    pub open spec fn search(&self, target: T) -> Option<Node<T>>
        decreases self,
    {
        match *self {
            Node::Leaf { value } => if value.eq_spec(&target) {
                Some(*self)
            } else {
                None
            },
            Node::Branch { left, value, right } => if value.eq_spec(&target) {
                Some(*self)
            } else if target.is_lt(&value) {
                left.search(target)
            } else if target.is_gt(&value) {
                right.search(target)
            } else {
                None
            },
        }
    }

    /// The ordering that a lookup relies on: at every branch, each value of
    /// the left subtree is less than the branch's value and each value of the
    /// right subtree is greater.
    pub open spec fn is_search_tree(&self) -> bool
        decreases self,
    {
        match *self {
            Node::Leaf { .. } => true,
            Node::Branch { left, value, right } => {
                &&& left.is_search_tree()
                &&& right.is_search_tree()
                &&& forall|i: int|
                    0 <= i < left.in_order().len() ==> (#[trigger] left.in_order()[i]).is_lt(&value)
                &&& forall|i: int|
                    0 <= i < right.in_order().len() ==> (#[trigger] right.in_order()[i]).is_gt(
                        &value,
                    )
            },
        }
    }

    /// Looks `value` up by descending from the root, and returns the node
    /// that holds it, with the subtree below it; `None` says that the descent
    /// did not find it. The descent trusts that the tree is a search tree and
    /// checks nothing of it. It makes at most three comparisons at each node
    /// of one way down, so their number is bounded by the depth of the tree,
    /// which for a tree that was not built balanced can be its size. What is
    /// stated holds for a value type whose `==`, `<` and `>` compute its
    /// `eq_spec` and `partial_cmp_spec`.
    pub fn find<'a>(&'a self, value: T) -> (found: Option<&'a Node<T>>)
        ensures
            T::obeys_eq_spec() && T::obeys_partial_cmp_spec() ==> match found {
                Some(node) => self.search(value) == Some(*node),
                None => self.search(value) is None,
            },
        decreases self,
    {
        match self {
            Node::Leaf { value: v } => if *v == value {
                Some(self)
            } else {
                None
            },
            Node::Branch { left, value: v, right } => if *v == value {
                Some(self)
            } else if value < *v {
                left.find(value)
            } else if value > *v {
                right.find(value)
            } else {
                None
            },
        }
    }
}

} // verus!
