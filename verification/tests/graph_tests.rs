use beast::graph::{resolve_range, CommitGraph, CommitNode, RangeError};

/// A linear history `A(root) <- B <- C`, parents listed before children.
fn linear_graph() -> CommitGraph {
    CommitGraph {
        nodes: vec![
            CommitNode { id: vec![0xaa], time: 100, parents: vec![] },
            CommitNode { id: vec![0xbb], time: 200, parents: vec![0] },
            CommitNode { id: vec![0xcc], time: 300, parents: vec![1] },
        ],
    }
}

#[test]
fn test_range_from_b_to_c_is_b_c() {
    let g = linear_graph();
    let resolved = resolve_range(&g, &vec![0xbb], &vec![0xcc]).expect("valid range");
    assert_eq!(resolved, vec![1, 2]);
}

#[test]
fn test_range_to_equals_from_is_single() {
    let g = linear_graph();
    let resolved = resolve_range(&g, &vec![0xbb], &vec![0xbb]).expect("valid range");
    assert_eq!(resolved, vec![1]);
}

#[test]
fn test_unknown_revision() {
    let g = linear_graph();
    assert_eq!(resolve_range(&g, &vec![0x99], &vec![0xcc]), Err(RangeError::UnknownRevision));
    assert_eq!(resolve_range(&g, &vec![0xbb], &vec![0x99]), Err(RangeError::UnknownRevision));
}

#[test]
fn test_root_from_is_invalid_range() {
    let g = linear_graph();
    assert_eq!(resolve_range(&g, &vec![0xaa], &vec![0xcc]), Err(RangeError::InvalidRange));
}

#[test]
fn test_to_not_descendant_is_invalid_range() {
    // A(root) <- B and A <- D on a side line: D does not descend from B.
    let g = CommitGraph {
        nodes: vec![
            CommitNode { id: vec![0xaa], time: 100, parents: vec![] },
            CommitNode { id: vec![0xbb], time: 200, parents: vec![0] },
            CommitNode { id: vec![0xdd], time: 250, parents: vec![0] },
        ],
    };
    assert_eq!(resolve_range(&g, &vec![0xbb], &vec![0xdd]), Err(RangeError::InvalidRange));
}

#[test]
fn test_merge_commit_walks_first_parent_only() {
    // A(root) <- B <- M where M merges side branch S (also a child of A):
    // M's first parent is B, its second is S. The walk from M follows B.
    let g = CommitGraph {
        nodes: vec![
            CommitNode { id: vec![0xaa], time: 100, parents: vec![] },
            CommitNode { id: vec![0xbb], time: 200, parents: vec![0] },
            CommitNode { id: vec![0x55], time: 210, parents: vec![0] },
            CommitNode { id: vec![0xee], time: 300, parents: vec![1, 2] },
        ],
    };
    let resolved = resolve_range(&g, &vec![0xbb], &vec![0xee]).expect("valid range");
    assert_eq!(resolved, vec![1, 3]);
    // The side branch head is not reachable along the first-parent line.
    assert_eq!(resolve_range(&g, &vec![0x55], &vec![0xee]), Err(RangeError::InvalidRange));
}
