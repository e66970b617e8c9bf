use valence::bvh::{
    internal_node_index, leaf_node_index, node_indices_fit, node_ref, partition, resolve_split,
    NodeRef, SplitStep,
};

#[test]
fn partition_puts_matching_elements_first() {
    let mut v = vec![1, 8, 3, 6, 5, 4, 7, 2, 9];
    let k = partition(&mut v, |x| x % 2 == 0);
    assert_eq!(k, 4);
    assert!(v[..k].iter().all(|x| x % 2 == 0));
    assert!(v[k..].iter().all(|x| x % 2 == 1));
    let mut sorted = v.clone();
    sorted.sort();
    assert_eq!(sorted, (1..=9).collect::<Vec<_>>());
    // The first odd element at the front is exchanged with the last even one.
    assert_eq!(v, vec![2, 8, 4, 6, 5, 3, 7, 1, 9]);
}

#[test]
fn partition_edge_cases() {
    let mut empty: Vec<i32> = vec![];
    assert_eq!(partition(&mut empty, |_| true), 0);
    let mut all = vec![2, 4];
    assert_eq!(partition(&mut all, |x| x % 2 == 0), 2);
    assert_eq!(all, vec![2, 4]);
    let mut none = vec![1, 3, 5];
    assert_eq!(partition(&mut none, |x| x % 2 == 0), 0);
    assert_eq!(none, vec![1, 3, 5]);
}

#[test]
fn node_indices_of_a_hierarchy() {
    // Four leaves: internal nodes 0..3, leaves 3..7.
    assert_eq!(leaf_node_index(4, 0), 3);
    assert_eq!(leaf_node_index(4, 3), 6);
    assert_eq!(node_ref(leaf_node_index(4, 2), 3), NodeRef::Leaf(2));
    assert_eq!(node_ref(2, 3), NodeRef::Internal(2));
    assert_eq!(internal_node_index(0, 2), 1);
    assert_eq!(internal_node_index(2, 1), 2);
    assert!(node_indices_fit(1));
    assert!(node_indices_fit(0x8000_0000));
    assert!(!node_indices_fit(0x8000_0001));
}

#[test]
fn split_decisions() {
    assert_eq!(resolve_split(2, 5, false, false), SplitStep::At(2));
    assert_eq!(resolve_split(0, 5, false, false), SplitStep::NarrowToRight);
    assert_eq!(resolve_split(0, 5, false, true), SplitStep::At(1));
    assert_eq!(resolve_split(5, 5, false, false), SplitStep::NarrowToLeft);
    assert_eq!(resolve_split(5, 5, true, false), SplitStep::At(4));
}
