use shared_tree::error::TreeError;
use shared_tree::ref_node::RefNode;
use shared_tree::value::Value;

fn values(from: i32, to: i32) -> Vec<Value> {
    (from..=to).map(Value).collect()
}

fn in_order<'a, T>(node: &RefNode<'a, T>, out: &mut Vec<&'a T>) {
    match node {
        RefNode::Leaf { value } => out.push(*value),
        RefNode::Branch { left, value, right } => {
            in_order(left, out);
            out.push(*value);
            in_order(right, out);
        }
    }
}

#[test]
fn fifteen_references_make_a_tree_of_fifteen_nodes() {
    let owned = values(1, 15);
    let node = RefNode::from_vec(&owned).unwrap();
    assert_eq!(node.size(), 15);
    assert_eq!(*node.find(Value(6)).unwrap().as_value(), Value(6));
    assert_eq!(*node.as_min(), Value(1));
    assert_eq!(*node.as_max(), Value(15));
    assert!(node.find(Value(42)).is_none());
}

#[test]
fn no_references_are_refused() {
    let none: Vec<Value> = Vec::new();
    assert_eq!(RefNode::from_vec(&none).unwrap_err(), TreeError::EmptyInput);
    assert_eq!(RefNode::from_vec(&[1, 2, 3, 4]).unwrap_err(), TreeError::EmptyInput);
}

#[test]
fn one_reference_makes_a_leaf() {
    let owned = [5];
    let node = RefNode::from_vec(&owned).unwrap();
    assert!(matches!(node, RefNode::Leaf { value: 5 }));
    assert_eq!(node.size(), 1);
    assert_eq!(*node.as_min(), 5);
    assert_eq!(*node.as_max(), 5);
}

#[test]
fn the_tree_refers_to_the_values_of_the_caller() {
    let owned = values(1, 7);
    let node = RefNode::from_vec(&owned).unwrap();
    let mut seen = Vec::new();
    in_order(&node, &mut seen);
    assert_eq!(seen.len(), owned.len());
    for (reference, value) in seen.iter().zip(owned.iter()) {
        assert!(std::ptr::eq(*reference, value));
    }
    assert!(std::ptr::eq(node.as_value(), &owned[3]));
    assert!(std::ptr::eq(node.as_min(), &owned[0]));
    assert!(std::ptr::eq(node.as_max(), &owned[6]));
}

#[test]
fn the_root_value_can_be_taken_in_four_ways() {
    let owned = values(1, 3);
    let node = RefNode::from_vec(&owned).unwrap();
    assert_eq!(*node.as_value(), Value(2));
    assert_eq!(node.to_value_clone(), Value(2));
    assert_eq!(node.clone().to_value_move1(), Value(2));
    let reference = node.to_value_move2();
    assert!(std::ptr::eq(reference, &owned[1]));
}

#[test]
fn viewing_find_returns_the_subtree_of_the_value() {
    let owned = [1, 2, 3, 4, 5, 6, 7];
    let node = RefNode::from_vec(&owned).unwrap();
    let found = node.find(2).unwrap();
    assert_eq!(found.size(), 3);
    assert_eq!(*found.as_max(), 3);
    for v in owned {
        assert_eq!(*node.find(v).unwrap().as_value(), v);
    }
    assert!(node.find(0).is_none());
    assert!(node.find(8).is_none());
}

#[test]
fn map_refers_to_what_the_function_returns() {
    let owned = values(1, 7);
    let names: Vec<String> = (0..=7).map(|i| format!("name {}", i)).collect();
    let node = RefNode::from_vec(&owned).unwrap();
    let mut calls = 0;
    let mapped = node.map(|v| {
        calls += 1;
        &names[v.0 as usize]
    });
    assert_eq!(calls, 7);
    assert_eq!(mapped.size(), 7);
    assert_eq!(mapped.as_value(), "name 4");
    assert_eq!(mapped.as_min(), "name 1");
    assert_eq!(mapped.as_max(), "name 7");
    assert!(std::ptr::eq(mapped.as_min(), &names[1]));
}

#[test]
fn a_cloned_viewing_handle_shares_the_subtrees() {
    let owned = values(1, 7);
    let tree = RefNode::from_vec(&owned).unwrap();
    let copy = tree.clone();
    assert!(tree == copy);
    assert!(std::ptr::eq(tree.as_value(), copy.as_value()));
    match (&tree, &copy) {
        (
            RefNode::Branch { left: l1, right: r1, .. },
            RefNode::Branch { left: l2, right: r2, .. },
        ) => {
            assert!(std::sync::Arc::ptr_eq(l1, l2));
            assert!(std::sync::Arc::ptr_eq(r1, r2));
        }
        _ => panic!("seven values make a branch"),
    }
}

#[test]
fn viewing_equality_is_by_shape_and_values() {
    let first = values(1, 7);
    let second = values(1, 7);
    let other = values(2, 8);
    let a = RefNode::from_vec(&first).unwrap();
    let b = RefNode::from_vec(&second).unwrap();
    assert!(a == a.clone());
    assert!(a == b && b == a);
    assert!(a != RefNode::from_vec(&other).unwrap());
    assert!(a != RefNode::from_vec(&first[0..3]).unwrap());
    let one = 1;
    let leaf = RefNode::of_leaf(&one);
    let branch = RefNode::of_branch(leaf.clone(), &one, leaf.clone());
    assert!(leaf != branch);
    assert_eq!(branch.size(), 3);
}
