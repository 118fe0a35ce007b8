use compositor::StagingRing;

#[test]
fn ring_round_trip_two_regions() {
    let mut ring = StagingRing::new(16);
    let a = vec![1u8, 2, 3];
    let b = vec![4u8, 5];
    let oa = ring.carve(&a);
    let ob = ring.carve(&b);
    assert_eq!(oa, 0);
    assert_eq!(ob, 3);
    ring.finish();
    assert_eq!(ring.read_back(oa, 3), vec![1, 2, 3]);
    assert_eq!(ring.read_back(ob, 2), vec![4, 5]);
}

#[test]
fn ring_recall_restores_full_availability() {
    let mut ring = StagingRing::new(16);
    let data = vec![9u8; 10];
    ring.carve(&data);
    assert_eq!(ring.available(), 6);
    ring.finish();
    ring.recall();
    assert_eq!(ring.available(), 16);
    assert_eq!(ring.capacity(), 16);
}

#[test]
fn ring_grows_instead_of_dropping() {
    let mut ring = StagingRing::new(4);
    let data = vec![7u8, 8, 9, 10, 11, 12];
    let offset = ring.carve(&data);
    assert_eq!(offset, 0);
    assert_eq!(ring.capacity(), 8);
    let more = vec![13u8; 5];
    let offset2 = ring.carve(&more);
    assert_eq!(offset2, 6);
    assert_eq!(ring.capacity(), 16);
    ring.finish();
    assert_eq!(ring.read_back(0, 6), vec![7, 8, 9, 10, 11, 12]);
    assert_eq!(ring.read_back(6, 5), vec![13, 13, 13, 13, 13]);
}

#[test]
fn ring_empty_frame_carves_nothing() {
    let mut ring = StagingRing::new(8);
    ring.finish();
    ring.recall();
    assert_eq!(ring.available(), 8);
}
