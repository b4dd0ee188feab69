use crate::laws::{
    lemma_balanced_in_order, lemma_branch_traversal, lemma_extremes_end_traversal,
    lemma_pointwise_traversals, lemma_size_counts_values,
};
use crate::node::{splits, Node};
use crate::order::{ascending, lt_gt_dual, lt_transitive};
use vstd::prelude::*;
use vstd::std_specs::cmp::{PartialEqSpec, PartialOrdIs};

verus! {

/// A lookup that succeeds gives the tree itself or one of the subtrees
/// below it.
pub proof fn lemma_search_gives_subtree<T: PartialOrd>(tree: &Node<T>, target: T)
    ensures
        tree.search(target) matches Some(node) ==> tree.has_subtree(node),
    decreases tree,
{
    match tree {
        Node::Leaf { .. } => {},
        Node::Branch { left, right, .. } => {
            lemma_search_gives_subtree(&**left, target);
            lemma_search_gives_subtree(&**right, target);
        },
    }
}

/// A lookup that succeeds stops at a node of the tree whose value equals the
/// target.
pub proof fn lemma_search_stops_at_equal<T: PartialOrd>(tree: &Node<T>, target: T)
    ensures
        tree.search(target) matches Some(node) ==> node.spec_value().eq_spec(&target)
            && tree.in_order().contains(node.spec_value()),
    decreases tree,
{
    match tree {
        Node::Leaf { value } => {
            assert(tree.in_order()[0] == *value);
        },
        Node::Branch { left, value, right } => {
            lemma_branch_traversal(tree);
            lemma_search_stops_at_equal(&**left, target);
            lemma_search_stops_at_equal(&**right, target);
            if left.search(target) is Some {
                let node = left.search(target).unwrap();
                let i = choose|i: int|
                    0 <= i < left.in_order().len() && left.in_order()[i] == node.spec_value();
                assert(tree.in_order()[i] == node.spec_value());
            }
            if right.search(target) is Some {
                let node = right.search(target).unwrap();
                let i = choose|i: int|
                    0 <= i < right.in_order().len() && right.in_order()[i] == node.spec_value();
                assert(tree.in_order()[left.in_order().len() + 1 + i] == node.spec_value());
            }
        },
    }
}

/// A lookup fails for a target that no value of the tree equals, whatever
/// the shape of the tree and whatever the order of its values.
pub proof fn lemma_search_misses_absent<T: PartialOrd>(tree: &Node<T>, target: T)
    requires
        forall|i: int| 0 <= i < tree.in_order().len() ==> !tree.in_order()[i].eq_spec(&target),
    ensures
        tree.search(target) is None,
{
    lemma_search_stops_at_equal(tree, target);
}

/// In a search tree a lookup succeeds for each value of the tree that
/// equals itself, and stops at a node whose value equals it.
pub proof fn lemma_search_finds_member<T: PartialOrd>(tree: &Node<T>, i: int)
    requires
        tree.is_search_tree(),
        0 <= i < tree.in_order().len(),
        tree.in_order()[i].eq_spec(&tree.in_order()[i]),
    ensures
        tree.search(tree.in_order()[i]) matches Some(node) && node.spec_value().eq_spec(
            &tree.in_order()[i],
        ),
    decreases tree,
{
    let target = tree.in_order()[i];
    match tree {
        Node::Leaf { .. } => {},
        Node::Branch { left, value, right } => {
            lemma_branch_traversal(tree);
            let n = left.in_order().len() as int;
            if i < n {
                lemma_search_finds_member(&**left, i);
            } else if i > n {
                assert(right.in_order()[i - n - 1] == target);
                lemma_search_finds_member(&**right, i - n - 1);
            }
        },
    }
}

/// A tree whose left-to-right traversal ascends is a search tree.
pub proof fn lemma_ascending_is_search_tree<T: PartialOrd>(tree: &Node<T>)
    requires
        ascending(tree.in_order()),
        lt_gt_dual::<T>(),
    ensures
        tree.is_search_tree(),
    decreases tree,
{
    match tree {
        Node::Leaf { .. } => {},
        Node::Branch { left, value, right } => {
            lemma_branch_traversal(tree);
            let n = left.in_order().len() as int;
            let all = tree.in_order();
            assert(ascending(left.in_order())) by {
                assert forall|i: int, j: int|
                    #![trigger left.in_order()[i], left.in_order()[j]]
                    0 <= i < j < left.in_order().len() implies left.in_order()[i].is_lt(
                    &left.in_order()[j],
                ) by {
                    assert(all[i].is_lt(&all[j]));
                }
            }
            assert(ascending(right.in_order())) by {
                assert forall|i: int, j: int|
                    #![trigger right.in_order()[i], right.in_order()[j]]
                    0 <= i < j < right.in_order().len() implies right.in_order()[i].is_lt(
                    &right.in_order()[j],
                ) by {
                    assert(all[n + 1 + i].is_lt(&all[n + 1 + j]));
                }
            }
            lemma_ascending_is_search_tree(&**left);
            lemma_ascending_is_search_tree(&**right);
            assert forall|i: int| 0 <= i < left.in_order().len() implies (
            #[trigger] left.in_order()[i]).is_lt(value) by {
                assert(all[i].is_lt(&all[n]));
            }
            assert forall|i: int| 0 <= i < right.in_order().len() implies (
            #[trigger] right.in_order()[i]).is_gt(value) by {
                assert(all[n].is_lt(&all[n + 1 + i]));
            }
        },
    }
}

/// The left-to-right traversal of a search tree ascends, where the order of
/// the values is transitive.
pub proof fn lemma_search_tree_ascends<T: PartialOrd>(tree: &Node<T>)
    requires
        tree.is_search_tree(),
        lt_gt_dual::<T>(),
        lt_transitive::<T>(),
    ensures
        ascending(tree.in_order()),
    decreases tree,
{
    match tree {
        Node::Leaf { .. } => {},
        Node::Branch { left, value, right } => {
            lemma_branch_traversal(tree);
            lemma_search_tree_ascends(&**left);
            lemma_search_tree_ascends(&**right);
            let n = left.in_order().len() as int;
            let all = tree.in_order();
            assert forall|i: int, j: int|
                #![trigger all[i], all[j]]
                0 <= i < j < all.len() implies all[i].is_lt(&all[j]) by {
                if j < n {
                    assert(left.in_order()[i].is_lt(&left.in_order()[j]));
                } else if i > n {
                    assert(right.in_order()[i - n - 1].is_lt(&right.in_order()[j - n - 1]));
                } else {
                    if i < n {
                        assert(left.in_order()[i].is_lt(value));
                    }
                    if j > n {
                        assert(right.in_order()[j - n - 1].is_gt(value));
                    }
                }
            }
        },
    }
}

/// In a search tree the leftmost value is less than every other value and
/// the rightmost is greater, where the order of the values is transitive.
pub proof fn lemma_search_tree_extremes<T: PartialOrd>(tree: &Node<T>)
    requires
        tree.is_search_tree(),
        lt_gt_dual::<T>(),
        lt_transitive::<T>(),
    ensures
        forall|i: int| 0 < i < tree.in_order().len() ==> tree.leftmost().is_lt(&tree.in_order()[i]),
        forall|i: int|
            0 <= i < tree.in_order().len() - 1 ==> tree.rightmost().is_gt(&tree.in_order()[i]),
{
    lemma_search_tree_ascends(tree);
    lemma_extremes_end_traversal(tree);
    lemma_size_counts_values(tree);
    let all = tree.in_order();
    assert forall|i: int| 0 < i < all.len() implies tree.leftmost().is_lt(&all[i]) by {
        assert(all[0].is_lt(&all[i]));
    }
    assert forall|i: int| 0 <= i < all.len() - 1 implies tree.rightmost().is_gt(&all[i]) by {
        assert(all[i].is_lt(&all[all.len() - 1]));
    }
}

/// A tree that was made position by position from a search tree is a search
/// tree too, where the relation between old and new values keeps their
/// order.
pub proof fn lemma_order_kept_by_pointwise<T: PartialOrd, B: PartialOrd>(
    origin: &Node<T>,
    made: &Node<B>,
    rel: spec_fn(T, B) -> bool,
)
    requires
        origin.is_search_tree(),
        origin.pointwise(made, rel),
        forall|x: T, y: T, p: B, q: B|
            #![trigger rel(x, p), rel(y, q)]
            rel(x, p) && rel(y, q) ==> (x.is_lt(&y) ==> p.is_lt(&q)) && (x.is_gt(&y) ==> p.is_gt(
                &q,
            )),
    ensures
        made.is_search_tree(),
    decreases origin,
{
    match (origin, made) {
        (
            Node::Branch { left: l1, value: v1, right: r1 },
            Node::Branch { left: l2, value: v2, right: r2 },
        ) => {
            lemma_order_kept_by_pointwise(&**l1, &**l2, rel);
            lemma_order_kept_by_pointwise(&**r1, &**r2, rel);
            lemma_pointwise_traversals(&**l1, &**l2, rel);
            lemma_pointwise_traversals(&**r1, &**r2, rel);
            assert forall|i: int| 0 <= i < l2.in_order().len() implies (
            #[trigger] l2.in_order()[i]).is_lt(v2) by {
                assert(rel(l1.in_order()[i], l2.in_order()[i]));
                assert(l1.in_order()[i].is_lt(v1));
            }
            assert forall|i: int| 0 <= i < r2.in_order().len() implies (
            #[trigger] r2.in_order()[i]).is_gt(v2) by {
                assert(rel(r1.in_order()[i], r2.in_order()[i]));
                assert(r1.in_order()[i].is_gt(v1));
            }
        },
        _ => {},
    }
}

/// The balanced tree of an ascending sequence is a search tree, for every
/// sequence that the builder accepts.
pub proof fn lemma_balanced_is_search_tree<T: PartialOrd>(values: Seq<T>)
    requires
        splits(values.len()),
        ascending(values),
        lt_gt_dual::<T>(),
    ensures
        Node::balanced(values).is_search_tree(),
{
    lemma_balanced_in_order(values);
    lemma_ascending_is_search_tree(&Node::balanced(values));
}

/// In the balanced tree of an ascending sequence a lookup succeeds for each
/// value of the sequence that equals itself, and stops at a node whose value
/// equals it, for every sequence that the builder accepts.
pub proof fn lemma_balanced_finds_each<T: PartialOrd>(values: Seq<T>, i: int)
    requires
        splits(values.len()),
        ascending(values),
        lt_gt_dual::<T>(),
        0 <= i < values.len(),
        values[i].eq_spec(&values[i]),
    ensures
        Node::balanced(values).search(values[i]) matches Some(node) && node.spec_value().eq_spec(
            &values[i],
        ),
{
    lemma_balanced_in_order(values);
    lemma_balanced_is_search_tree(values);
    lemma_search_finds_member(&Node::balanced(values), i);
}

/// In the balanced tree of a sequence a lookup fails for a target that no
/// value of the sequence equals, for every sequence that the builder accepts.
pub proof fn lemma_balanced_misses_absent<T: PartialOrd>(values: Seq<T>, target: T)
    requires
        splits(values.len()),
        forall|i: int| 0 <= i < values.len() ==> !values[i].eq_spec(&target),
    ensures
        Node::balanced(values).search(target) is None,
{
    lemma_balanced_in_order(values);
    lemma_search_misses_absent(&Node::balanced(values), target);
}

} // verus!
