use crate::node::{splits, Node};
use crate::order::{eq_reflexive, eq_symmetric, eq_transitive};
use vstd::arithmetic::power2::{lemma_pow2_pos, lemma_pow2_unfold, pow2};
use vstd::prelude::*;
use vstd::std_specs::cmp::PartialEqSpec;

verus! {

/// A tree has as many nodes as its left-to-right traversal has values.
pub proof fn lemma_size_counts_values<T>(tree: &Node<T>)
    ensures
        tree.in_order().len() == tree.spec_size(),
        tree.spec_size() >= 1,
    decreases tree,
{
    match tree {
        Node::Leaf { .. } => {},
        Node::Branch { left, right, .. } => {
            lemma_size_counts_values(&**left);
            lemma_size_counts_values(&**right);
        },
    }
}

/// The leftmost value is the first of the left-to-right traversal, and the
/// rightmost value is the last.
pub proof fn lemma_extremes_end_traversal<T>(tree: &Node<T>)
    ensures
        tree.leftmost() == tree.in_order().first(),
        tree.rightmost() == tree.in_order().last(),
    decreases tree,
{
    match tree {
        Node::Leaf { .. } => {},
        Node::Branch { left, right, .. } => {
            lemma_size_counts_values(&**left);
            lemma_size_counts_values(&**right);
            lemma_extremes_end_traversal(&**left);
            lemma_extremes_end_traversal(&**right);
        },
    }
}

/// The lengths that the builder accepts are those one less than a power of
/// two: 1, 3, 7, 15 and so on.
pub proof fn lemma_splits_power_of_two(len: nat)
    ensures
        splits(len) <==> exists|k: nat| k >= 1 && len + 1 == #[trigger] pow2(k),
{
    if splits(len) {
        lemma_split_length(len);
    }
    if exists|k: nat| k >= 1 && len + 1 == #[trigger] pow2(k) {
        let k = choose|k: nat| k >= 1 && len + 1 == #[trigger] pow2(k);
        lemma_power_splits(k);
    }
}

/// A length that splits is one less than a power of two, which is returned.
pub proof fn lemma_split_length(len: nat) -> (k: nat)
    requires
        splits(len),
    ensures
        k >= 1,
        len + 1 == pow2(k),
    decreases len,
{
    if len == 1 {
        lemma_pow2_unfold(1);
        vstd::arithmetic::power2::lemma2_to64();
        1
    } else {
        let front = len / 2;
        let back = (len - len / 2 - 1) as nat;
        let a = lemma_split_length(front);
        let b = lemma_split_length(back);
        lemma_pow2_unfold(a);
        lemma_pow2_unfold(b);
        lemma_pow2_unfold(a + 1);
        // Both halves are odd, so they have the same length.
        assert(front == back);
        a + 1
    }
}

/// One less than a power of two, from 2 on, is a length that splits.
pub proof fn lemma_power_splits(k: nat)
    requires
        k >= 1,
    ensures
        splits((pow2(k) - 1) as nat),
    decreases k,
{
    lemma_pow2_unfold(k);
    lemma_pow2_pos((k - 1) as nat);
    if k == 1 {
        vstd::arithmetic::power2::lemma2_to64();
    } else {
        lemma_power_splits((k - 1) as nat);
        let len = (pow2(k) - 1) as nat;
        assert(len / 2 == pow2((k - 1) as nat) - 1);
    }
}

/// The balanced tree is as shallow as a tree of its size can be: with a
/// depth of `d` it has two to the power of `d`, less one, nodes. Its depth is
/// the logarithm of its size.
pub proof fn lemma_balanced_depth<T>(values: Seq<T>)
    requires
        splits(values.len()),
    ensures
        pow2(Node::balanced(values).depth()) == values.len() + 1,
    decreases values.len(),
{
    if values.len() > 1 {
        let mid = (values.len() / 2) as int;
        let front = values.subrange(0, mid);
        let back = values.subrange(mid + 1, values.len() as int);
        lemma_balanced_depth(front);
        lemma_balanced_depth(back);
        let a = lemma_split_length(front.len());
        let b = lemma_split_length(back.len());
        lemma_pow2_unfold(a);
        lemma_pow2_unfold(b);
        assert(front.len() == back.len());
        let d = Node::balanced(front).depth();
        assert(Node::balanced(back).depth() == d) by {
            lemma_pow2_injective(d, Node::balanced(back).depth());
        }
        lemma_pow2_unfold(d + 1);
    } else {
        lemma_pow2_unfold(1);
        vstd::arithmetic::power2::lemma2_to64();
    }
}

/// Two powers of two are equal only where their exponents are.
pub proof fn lemma_pow2_injective(a: nat, b: nat)
    requires
        pow2(a) == pow2(b),
    ensures
        a == b,
{
    if a < b {
        vstd::arithmetic::power2::lemma_pow2_strictly_increases(a, b);
    }
    if b < a {
        vstd::arithmetic::power2::lemma_pow2_strictly_increases(b, a);
    }
}

/// The left-to-right traversal of the balanced tree of `values` gives
/// `values` back, for every sequence that the builder accepts.
pub proof fn lemma_balanced_in_order<T>(values: Seq<T>)
    requires
        splits(values.len()),
    ensures
        Node::balanced(values).in_order() == values,
    decreases values.len(),
{
    if values.len() > 1 {
        let mid = (values.len() / 2) as int;
        let front = values.subrange(0, mid);
        let back = values.subrange(mid + 1, values.len() as int);
        lemma_balanced_in_order(front);
        lemma_balanced_in_order(back);
        assert(front + seq![values[mid]] + back =~= values);
    } else {
        assert(seq![values[0]] =~= values);
    }
}

/// The balanced tree of `values` has one node for each value, for every
/// sequence that the builder accepts.
pub proof fn lemma_balanced_size<T>(values: Seq<T>)
    requires
        splits(values.len()),
    ensures
        Node::balanced(values).spec_size() == values.len(),
{
    lemma_balanced_in_order(values);
    lemma_size_counts_values(&Node::balanced(values));
}

/// In the balanced tree of `values` the leftmost value is the first of
/// `values` and the rightmost is the last, for every sequence that the
/// builder accepts. Where `values` ascends these are its least and its
/// greatest value.
pub proof fn lemma_balanced_extremes<T>(values: Seq<T>)
    requires
        splits(values.len()),
    ensures
        Node::balanced(values).leftmost() == values.first(),
        Node::balanced(values).rightmost() == values.last(),
{
    lemma_balanced_in_order(values);
    lemma_extremes_end_traversal(&Node::balanced(values));
}

/// Two trees that are related position by position have the same size and
/// the same depth, and their traversals are related value by value.
pub proof fn lemma_pointwise_traversals<T, B>(a: &Node<T>, b: &Node<B>, rel: spec_fn(T, B) -> bool)
    requires
        a.pointwise(b, rel),
    ensures
        a.spec_size() == b.spec_size(),
        a.depth() == b.depth(),
        a.in_order().len() == b.in_order().len(),
        forall|i: int| 0 <= i < a.in_order().len() ==> rel(a.in_order()[i], b.in_order()[i]),
    decreases a,
{
    match (a, b) {
        (
            Node::Branch { left: l1, right: r1, .. },
            Node::Branch { left: l2, right: r2, .. },
        ) => {
            lemma_pointwise_traversals(&**l1, &**l2, rel);
            lemma_pointwise_traversals(&**r1, &**r2, rel);
        },
        _ => {},
    }
}

/// Where the relation admits only identical values, two trees that are
/// related position by position are the same tree.
pub proof fn lemma_pointwise_identical<T>(a: &Node<T>, b: &Node<T>, rel: spec_fn(T, T) -> bool)
    requires
        a.pointwise(b, rel),
        forall|x: T, y: T| #[trigger] rel(x, y) ==> x == y,
    ensures
        a == b,
    decreases a,
{
    match (a, b) {
        (
            Node::Branch { left: l1, right: r1, .. },
            Node::Branch { left: l2, right: r2, .. },
        ) => {
            lemma_pointwise_identical(&**l1, &**l2, rel);
            lemma_pointwise_identical(&**r1, &**r2, rel);
        },
        _ => {},
    }
}

/// The traversal of a branch is the traversal of its left subtree, then its
/// value, then the traversal of its right subtree, at these positions.
pub proof fn lemma_branch_traversal<T>(tree: &Node<T>)
    requires
        tree is Branch,
    ensures
        tree.in_order().len() == tree->left.in_order().len() + 1 + tree->right.in_order().len(),
        tree.in_order()[tree->left.in_order().len() as int] == tree->Branch_value,
        forall|i: int|
            0 <= i < tree->left.in_order().len() ==> tree.in_order()[i]
                == #[trigger] tree->left.in_order()[i],
        forall|i: int|
            0 <= i < tree->right.in_order().len() ==> tree.in_order()[tree->left.in_order().len()
                + 1 + i] == #[trigger] tree->right.in_order()[i],
{
}

/// Equality of trees is reflexive where equality of values is.
pub proof fn lemma_eq_reflexive<T: PartialEq>(tree: &Node<T>)
    requires
        eq_reflexive::<T>(),
    ensures
        tree.eq_spec(tree),
    decreases tree,
{
    match tree {
        Node::Leaf { .. } => {},
        Node::Branch { left, right, .. } => {
            lemma_eq_reflexive(&**left);
            lemma_eq_reflexive(&**right);
        },
    }
}

/// Equality of trees is symmetric where equality of values is.
pub proof fn lemma_eq_symmetric<T: PartialEq>(a: &Node<T>, b: &Node<T>)
    requires
        eq_symmetric::<T>(),
        a.eq_spec(b),
    ensures
        b.eq_spec(a),
    decreases a,
{
    match (a, b) {
        (
            Node::Branch { left: l1, right: r1, .. },
            Node::Branch { left: l2, right: r2, .. },
        ) => {
            lemma_eq_symmetric(&**l1, &**l2);
            lemma_eq_symmetric(&**r1, &**r2);
        },
        _ => {},
    }
}

/// Equality of trees is transitive where equality of values is.
pub proof fn lemma_eq_transitive<T: PartialEq>(a: &Node<T>, b: &Node<T>, c: &Node<T>)
    requires
        eq_transitive::<T>(),
        a.eq_spec(b),
        b.eq_spec(c),
    ensures
        a.eq_spec(c),
    decreases a,
{
    match (a, b, c) {
        (
            Node::Branch { left: l1, right: r1, .. },
            Node::Branch { left: l2, right: r2, .. },
            Node::Branch { left: l3, right: r3, .. },
        ) => {
            lemma_eq_transitive(&**l1, &**l2, &**l3);
            lemma_eq_transitive(&**r1, &**r2, &**r3);
        },
        _ => {},
    }
}

/// A cloned handle equals the handle it was made from, where equality of
/// values is reflexive and every clone of a value equals the value.
pub proof fn lemma_clone_is_equal<T: Clone + PartialEq>(tree: &Node<T>, copy: &Node<T>)
    requires
        tree.shared_by(copy),
        eq_reflexive::<T>(),
        forall|x: T, y: T| #[trigger] cloned(x, y) ==> x.eq_spec(&y),
    ensures
        tree.eq_spec(copy),
{
    match tree {
        Node::Leaf { .. } => {},
        Node::Branch { left, right, .. } => {
            lemma_eq_reflexive(&**left);
            lemma_eq_reflexive(&**right);
        },
    }
}

/// Two trees that were each made position by position from the same tree are
/// equal, where any two values made from one value are equal.
pub proof fn lemma_copies_are_equal<T, B: PartialEq>(
    origin: &Node<T>,
    first: &Node<B>,
    second: &Node<B>,
    rel: spec_fn(T, B) -> bool,
)
    requires
        origin.pointwise(first, rel),
        origin.pointwise(second, rel),
        forall|x: T, y: B, z: B| #[trigger] rel(x, y) && #[trigger] rel(x, z) ==> y.eq_spec(&z),
    ensures
        first.eq_spec(second),
    decreases origin,
{
    match (origin, first, second) {
        (
            Node::Branch { left: l1, right: r1, .. },
            Node::Branch { left: l2, right: r2, .. },
            Node::Branch { left: l3, right: r3, .. },
        ) => {
            lemma_copies_are_equal(&**l1, &**l2, &**l3, rel);
            lemma_copies_are_equal(&**r1, &**r2, &**r3, rel);
        },
        _ => {},
    }
}

/// Where cloning gives the value back unchanged, a tree that was built from
/// clones of `values` is the balanced tree of `values` itself, and its
/// left-to-right traversal is `values`.
pub proof fn lemma_exact_clones_build_balanced<T: Clone>(values: Seq<T>, tree: &Node<T>)
    requires
        splits(values.len()),
        Node::balanced(values).pointwise(tree, Node::<T>::clone_of()),
        forall|x: T, y: T| #[trigger] cloned(x, y) ==> x == y,
    ensures
        *tree == Node::balanced(values),
        tree.in_order() == values,
{
    let clone_of = Node::<T>::clone_of();
    assert forall|x: T, y: T| #[trigger] clone_of(x, y) implies x == y by {
        assert(cloned(x, y));
    }
    lemma_pointwise_identical(&Node::balanced(values), tree, clone_of);
    lemma_balanced_in_order(values);
}

/// Two trees that were each built from the same values are equal, whatever
/// storage each of them got, where every clone of a value equals every other
/// clone of it.
pub proof fn lemma_builds_are_equal<T: Clone + PartialEq>(
    values: Seq<T>,
    first: &Node<T>,
    second: &Node<T>,
)
    requires
        Node::balanced(values).pointwise(first, Node::<T>::clone_of()),
        Node::balanced(values).pointwise(second, Node::<T>::clone_of()),
        forall|x: T, y: T, z: T|
            #[trigger] cloned(x, y) && #[trigger] cloned(x, z) ==> y.eq_spec(&z),
    ensures
        first.eq_spec(second),
{
    lemma_copies_are_equal(&Node::balanced(values), first, second, Node::<T>::clone_of());
}

} // verus!
