use std::collections::{HashMap, HashSet};
use turbopack::emit::FileSystemPath;
use turbopack::graph::{AggregatedGraph, OutputAsset};
use turbopack::references::{compute_back_references, top_references, ReferencesList};
use turbopack::top::{select_top, TOP_COUNT};

fn asset(id: u64, refs: Vec<u64>) -> AggregatedGraph {
    AggregatedGraph::Asset(OutputAsset {
        id,
        path: FileSystemPath { fs: 1, path: format!("out/{}", id) },
        references: refs,
    })
}

fn set(v: &[u64]) -> HashSet<u64> {
    v.iter().copied().collect()
}

#[test]
fn back_references_collect_referrers() {
    let g = AggregatedGraph::Children(vec![
        asset(1, vec![10, 11]),
        AggregatedGraph::Children(vec![asset(2, vec![10]), asset(3, vec![])]),
        asset(4, vec![11, 11, 12]),
    ]);
    let list = compute_back_references(&g);
    assert_eq!(list.referenced_by.len(), 3);
    assert_eq!(list.referenced_by[&10], set(&[1, 2]));
    assert_eq!(list.referenced_by[&11], set(&[1, 4]));
    assert_eq!(list.referenced_by[&12], set(&[4]));
}

#[test]
fn back_references_of_single_asset() {
    let list = compute_back_references(&asset(5, vec![6]));
    assert_eq!(list.referenced_by.len(), 1);
    assert_eq!(list.referenced_by[&6], set(&[5]));
    let empty = compute_back_references(&AggregatedGraph::Children(vec![]));
    assert!(empty.referenced_by.is_empty());
}

#[test]
fn selection_keeps_largest_first() {
    let top = select_top(&vec![(1, 1), (2, 2), (3, 3)]);
    assert_eq!(top, vec![(3, 3), (2, 2), (1, 1)]);
}

#[test]
fn selection_is_bounded() {
    let entries: Vec<(u64, usize)> = (0..8u64).map(|k| (k, k as usize)).collect();
    let top = select_top(&entries);
    assert_eq!(top.len(), TOP_COUNT);
    assert_eq!(top, vec![(7, 7), (6, 6), (5, 5), (4, 4), (3, 3)]);
}

#[test]
fn selection_of_none_is_empty() {
    assert!(select_top(&vec![]).is_empty());
}

#[test]
fn top_references_keeps_at_most_five_most_referenced() {
    let mut m: HashMap<u64, HashSet<u64>> = HashMap::new();
    for k in 0..8u64 {
        let referrers: Vec<u64> = (0..k).collect();
        m.insert(k, set(&referrers));
    }
    let list = ReferencesList { referenced_by: m };
    let top = top_references(&list);
    assert_eq!(top.referenced_by.len(), 5);
    for (k, v) in top.referenced_by.iter() {
        assert_eq!(v, &list.referenced_by[k]);
        assert!(*k >= 3);
    }
}

#[test]
fn top_references_of_small_index_keeps_all() {
    let mut m: HashMap<u64, HashSet<u64>> = HashMap::new();
    m.insert(1, set(&[2]));
    m.insert(3, set(&[4, 5]));
    let list = ReferencesList { referenced_by: m };
    let top = top_references(&list);
    assert_eq!(top.referenced_by, list.referenced_by);
}
