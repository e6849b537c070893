use render_engine::round_robin_indexer::ArrayIndexer;

#[test]
fn increments_wrap_around() {
    let indexer = ArrayIndexer::<3>::new(1);
    assert_eq!(indexer.index(), 1);
    let indexer = indexer.increment();
    assert_eq!(indexer.index(), 2);
    let indexer = indexer.increment();
    assert_eq!(indexer.index(), 0);
    let indexer = indexer.increment();
    assert_eq!(indexer.index(), 1);
}

#[test]
fn every_index_is_visited() {
    let mut indexer = ArrayIndexer::<5>::new(3);
    let mut seen = [false; 5];
    for _ in 0..5 {
        seen[indexer.index()] = true;
        indexer = indexer.increment();
    }
    assert!(seen.iter().all(|x| *x));
    assert_eq!(indexer.index(), 3);
}

#[test]
fn single_slot_stays_at_zero() {
    let indexer = ArrayIndexer::<1>::new(0);
    assert_eq!(indexer.increment().index(), 0);
}
