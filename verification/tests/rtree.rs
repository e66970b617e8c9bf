use valence::rtree::{config_valid, retain_step, split_positions, QueryAction, RetainStep};

#[test]
fn rtree_node_sizes() {
    assert!(config_valid(2, 4));
    assert!(config_valid(4, 16));
    assert!(!config_valid(1, 4));
    assert!(!config_valid(3, 5));
    assert!(!config_valid(2, 3));
    assert_eq!(split_positions(2, 4), (2, 4));
    assert_eq!(split_positions(4, 16), (4, 14));
    assert_ne!(QueryAction::Continue, QueryAction::Break);
}

#[test]
fn rtree_retain_steps() {
    assert_eq!(retain_step(true, 0, 2, true, true), RetainStep::Keep);
    assert_eq!(retain_step(false, 1, 2, false, false), RetainStep::Delete);
    assert_eq!(retain_step(false, 2, 2, true, true), RetainStep::Shrink);
    assert_eq!(retain_step(false, 2, 2, true, false), RetainStep::Keep);
    assert_eq!(retain_step(false, 3, 2, false, true), RetainStep::Keep);
}
