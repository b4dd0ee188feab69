use shared_tree::error::TreeError;
use shared_tree::node::Node;
use shared_tree::value::Value;
use std::collections::hash_map::DefaultHasher;
use std::hash::{Hash, Hasher};

fn values(from: i32, to: i32) -> Vec<Value> {
    (from..=to).map(Value).collect()
}

fn in_order<T: Clone>(node: &Node<T>, out: &mut Vec<T>) {
    match node {
        Node::Leaf { value } => out.push(value.clone()),
        Node::Branch { left, value, right } => {
            in_order(left, out);
            out.push(value.clone());
            in_order(right, out);
        }
    }
}

fn hash_of<T: Hash>(value: &T) -> u64 {
    let mut hasher = DefaultHasher::new();
    value.hash(&mut hasher);
    hasher.finish()
}

#[test]
fn fifteen_values_make_a_tree_of_fifteen_nodes() {
    let node = Node::from_vec(&values(1, 15)).unwrap();
    assert_eq!(node.size(), 15);
    assert_eq!(*node.find(Value(6)).unwrap().as_value(), Value(6));
    assert_eq!(*node.as_min(), Value(1));
    assert_eq!(*node.as_max(), Value(15));
}

#[test]
fn no_values_are_refused() {
    let none: Vec<Value> = Vec::new();
    assert_eq!(Node::from_vec(&none).unwrap_err(), TreeError::EmptyInput);
}

#[test]
fn a_value_that_is_not_in_the_tree_is_not_found() {
    let node = Node::from_vec(&values(1, 15)).unwrap();
    assert!(node.find(Value(42)).is_none());
    assert!(node.find(Value(0)).is_none());
}

#[test]
fn one_value_makes_a_leaf() {
    let node = Node::from_vec(&[5]).unwrap();
    assert!(matches!(node, Node::Leaf { value: 5 }));
    assert_eq!(node.size(), 1);
    assert_eq!(*node.as_min(), 5);
    assert_eq!(*node.as_max(), 5);
    assert_eq!(*node.as_value(), 5);
}

#[test]
fn the_value_after_the_midpoint_becomes_the_root() {
    let node = Node::from_vec(&[10, 20, 30]).unwrap();
    assert_eq!(node, Node::of_branch(Node::of_leaf(10), 20, Node::of_leaf(30)));
    let seven = Node::from_vec(&[1, 2, 3, 4, 5, 6, 7]).unwrap();
    assert_eq!(*seven.as_value(), 4);
    let by_hand = Node::of_branch(
        Node::of_branch(Node::of_leaf(1), 2, Node::of_leaf(3)),
        4,
        Node::of_branch(Node::of_leaf(5), 6, Node::of_leaf(7)),
    );
    assert_eq!(seven, by_hand);
}

#[test]
fn lengths_that_leave_a_subtree_empty_are_refused() {
    for len in 1..=40usize {
        let input: Vec<usize> = (0..len).collect();
        let built = Node::from_vec(&input);
        if (len + 1).is_power_of_two() {
            assert_eq!(built.unwrap().size(), len);
        } else {
            assert_eq!(built.unwrap_err(), TreeError::EmptyInput);
        }
    }
}

#[test]
fn traversal_gives_the_input_back() {
    for len in [1usize, 3, 7, 15, 31, 63] {
        let input: Vec<usize> = (0..len).map(|i| i * 3).collect();
        let node = Node::from_vec(&input).unwrap();
        let mut seen = Vec::new();
        in_order(&node, &mut seen);
        assert_eq!(seen, input);
        assert_eq!(node.size(), len);
        assert_eq!(*node.as_min(), input[0]);
        assert_eq!(*node.as_max(), input[len - 1]);
    }
}

#[test]
fn every_value_of_the_input_is_found() {
    let input: Vec<i64> = (0..31).map(|i| i * 2).collect();
    let node = Node::from_vec(&input).unwrap();
    for v in &input {
        assert_eq!(*node.find(*v).unwrap().as_value(), *v);
        assert!(node.find(*v + 1).is_none());
    }
    assert!(node.find(-2).is_none());
}

#[test]
fn find_returns_the_subtree_of_the_value() {
    let node = Node::from_vec(&[1, 2, 3, 4, 5, 6, 7]).unwrap();
    let found = node.find(6).unwrap();
    assert_eq!(found.size(), 3);
    assert_eq!(*found.as_min(), 5);
    assert_eq!(*found.as_max(), 7);
    assert_eq!(node.find(4).unwrap(), &node);
}

#[test]
fn find_gives_up_on_a_value_that_does_not_compare() {
    let node = Node::from_vec(&[1.0f64, 2.0, 3.0]).unwrap();
    assert!(node.find(f64::NAN).is_none());
    assert!(node.find(3.0).is_some());
}

#[test]
fn find_follows_the_order_even_where_the_tree_does_not() {
    let unordered = Node::of_branch(Node::of_leaf(9), 5, Node::of_leaf(1));
    assert!(unordered.find(9).is_none());
    assert!(unordered.find(1).is_none());
    assert!(unordered.find(5).is_some());
    assert_eq!(*unordered.as_min(), 9);
    assert_eq!(*unordered.as_max(), 1);
}

#[test]
fn map_keeps_the_shape_and_calls_once_for_each_value() {
    let node = Node::from_vec(&values(1, 7)).unwrap();
    let mut seen = Vec::new();
    let doubled = node.map(|v| {
        seen.push(v.0);
        v.0 * 2
    });
    assert_eq!(seen, vec![4, 2, 1, 3, 6, 5, 7]);
    assert_eq!(doubled.size(), node.size());
    assert_eq!(doubled, Node::from_vec(&[2, 4, 6, 8, 10, 12, 14]).unwrap());
    assert_eq!(node.size(), 7);
}

#[test]
fn map_does_not_restore_the_order() {
    let node = Node::from_vec(&[1, 2, 3]).unwrap();
    let negated = node.map(|v| -*v);
    assert_eq!(negated, Node::of_branch(Node::of_leaf(-1), -2, Node::of_leaf(-3)));
    assert!(negated.find(-1).is_none());
    assert_eq!(*negated.as_min(), -1);
}

#[test]
fn map_may_refer_to_the_values_of_the_source() {
    let node = Node::from_vec(&values(1, 3)).unwrap();
    let borrowed: Node<&Value> = node.map(|v| v);
    assert_eq!(**borrowed.as_min(), Value(1));
    assert_eq!(**borrowed.as_max(), Value(3));
}

#[test]
fn equality_is_by_shape_and_values() {
    let a = Node::from_vec(&values(1, 7)).unwrap();
    let b = Node::from_vec(&values(1, 7)).unwrap();
    let c = a.clone();
    assert!(a == a);
    assert!(a == b && b == a);
    assert!(b == c && a == c);
    assert!(a != Node::from_vec(&values(2, 8)).unwrap());
    assert!(a != Node::from_vec(&values(1, 3)).unwrap());
    assert!(Node::of_leaf(1) != Node::of_branch(Node::of_leaf(1), 1, Node::of_leaf(1)));
    let swapped = Node::of_branch(Node::of_leaf(3), 2, Node::of_leaf(1));
    assert!(Node::of_branch(Node::of_leaf(1), 2, Node::of_leaf(3)) != swapped);
}

#[test]
fn a_cloned_handle_shares_the_subtrees() {
    let tree = Node::from_vec(&values(1, 7)).unwrap();
    let copy = tree.clone();
    assert!(tree == copy && copy == tree);
    match (&tree, &copy) {
        (Node::Branch { left: l1, right: r1, .. }, Node::Branch { left: l2, right: r2, .. }) => {
            assert!(std::sync::Arc::ptr_eq(l1, l2));
            assert!(std::sync::Arc::ptr_eq(r1, r2));
        }
        _ => panic!("seven values make a branch"),
    }
    let leaf = Node::of_leaf(Value(3));
    assert!(leaf.clone() == leaf);
}

#[test]
fn equal_trees_hash_alike() {
    let a = Node::from_vec(&[1, 2, 3, 4, 5, 6, 7]).unwrap();
    let b = Node::from_vec(&[1, 2, 3, 4, 5, 6, 7]).unwrap();
    assert_eq!(hash_of(&a), hash_of(&b));
    assert_eq!(hash_of(&a), hash_of(&a.clone()));
}

#[test]
fn a_subtree_can_stand_in_two_trees() {
    let shared = Node::from_vec(&[1, 2, 3]).unwrap();
    let twice = Node::of_branch(shared.clone(), 4, shared.clone());
    assert_eq!(twice.size(), 7);
    assert_eq!(shared.size(), 3);
    assert_eq!(*twice.as_max(), 3);
}

#[test]
fn values_order_as_their_numbers_do() {
    assert!(Value(1) < Value(2));
    assert!(Value(2) > Value(1));
    assert!(Value(2) == Value(2));
    assert!(Value(2) != Value(3));
    assert_eq!(Value(7).partial_cmp(&Value(7)), Some(std::cmp::Ordering::Equal));
    assert_eq!(Value(7).clone(), Value(7));
}

fn shared_between_threads<T: Send + Sync>() {}

#[test]
fn trees_can_be_shared_between_threads() {
    shared_between_threads::<Node<Value>>();
    shared_between_threads::<shared_tree::ref_node::RefNode<'static, Value>>();
}
