use dataflow::provenance::{Provenance, ProvenanceUpdate};

fn counts(p: &Provenance) -> Vec<u64> {
    (0..p.shards()).map(|i| p.count(i)).collect()
}

#[test]
fn merge_takes_the_larger_count_per_shard() {
    let mut a = Provenance::from_counts(vec![3, 0, 7]);
    let b = Provenance::from_counts(vec![1, 5]);
    a.merge(&b);
    assert_eq!(counts(&a), vec![3, 5, 7]);
}

#[test]
fn merge_order_does_not_matter() {
    let a = vec![4u64, 1, 0, 9];
    let b = vec![2u64, 8];
    let c = vec![0u64, 0, 6, 9, 1];
    let mut x = Provenance::from_counts(a.clone());
    x.merge(&Provenance::from_counts(b.clone()));
    x.merge(&Provenance::from_counts(c.clone()));
    let mut y = Provenance::from_counts(c.clone());
    y.merge(&Provenance::from_counts(a.clone()));
    y.merge(&Provenance::from_counts(b.clone()));
    let mut inner = Provenance::from_counts(b);
    inner.merge(&Provenance::from_counts(c));
    let mut z = Provenance::from_counts(a);
    z.merge(&inner);
    assert_eq!(counts(&x), vec![4, 8, 6, 9, 1]);
    assert_eq!(counts(&y), vec![4, 8, 6, 9, 1]);
    assert_eq!(counts(&z), vec![4, 8, 6, 9, 1]);
}

#[test]
fn merge_never_lowers_a_count() {
    let mut a = Provenance::from_counts(vec![5, 5]);
    let before = Provenance::from_counts(vec![5, 5]);
    a.merge(&Provenance::from_counts(vec![1, 9, 2]));
    assert!(a.covers(&before));
    assert!(a.covers(&Provenance::from_counts(vec![1, 9, 2])));
    assert!(!before.covers(&a));
}

#[test]
fn new_provenance_has_seen_nothing() {
    let p = Provenance::new();
    assert_eq!(p.shards(), 0);
    assert_eq!(p.count(0), 0);
    assert_eq!(p.count(17), 0);
}

#[test]
fn apply_raises_one_shard_and_grows() {
    let mut p = Provenance::from_counts(vec![2]);
    assert!(p.apply(ProvenanceUpdate { shard: 3, count: 4 }));
    assert_eq!(counts(&p), vec![2, 0, 0, 4]);
    assert!(!p.apply(ProvenanceUpdate { shard: 0, count: 2 }));
    assert!(!p.apply(ProvenanceUpdate { shard: 0, count: 1 }));
    assert!(p.apply(ProvenanceUpdate { shard: 0, count: 3 }));
    assert_eq!(counts(&p), vec![3, 0, 0, 4]);
}

#[test]
fn stale_updates_are_recognised() {
    let p = Provenance::from_counts(vec![2, 6]);
    assert!(p.is_stale(ProvenanceUpdate { shard: 1, count: 6 }));
    assert!(p.is_stale(ProvenanceUpdate { shard: 1, count: 5 }));
    assert!(!p.is_stale(ProvenanceUpdate { shard: 1, count: 7 }));
    assert!(!p.is_stale(ProvenanceUpdate { shard: 4, count: 1 }));
    assert!(p.is_stale(ProvenanceUpdate { shard: 4, count: 0 }));
}

#[test]
fn low_water_mark_is_the_smaller_count_per_shard() {
    let a = Provenance::from_counts(vec![3, 9, 4]);
    let b = Provenance::from_counts(vec![5, 2]);
    assert_eq!(counts(&a.low_water_mark(&b)), vec![3, 2, 0]);
    assert_eq!(counts(&b.low_water_mark(&a)), vec![3, 2, 0]);
}
