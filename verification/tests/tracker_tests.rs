use sand3d::model::{World, WORLD_SIZE, WORLD_VOLUME};
use sand3d::tracker::ChangeTracker;

#[test]
fn new_tracker_is_fully_dirty() {
    let mut t = ChangeTracker::new();
    let drained = t.drain();
    assert_eq!(drained.len(), WORLD_VOLUME);
    for (i, v) in drained.iter().enumerate() {
        assert_eq!(*v, i);
    }
}

#[test]
fn update_then_drain_reports_cell_and_face_neighbours() {
    let mut t = ChangeTracker::new();
    t.drain();
    t.update(5, 6, 7);
    let drained = t.drain();
    let mut expected = vec![
        World::coordiantes_to_index(5, 6, 7),
        World::coordiantes_to_index(4, 6, 7),
        World::coordiantes_to_index(6, 6, 7),
        World::coordiantes_to_index(5, 5, 7),
        World::coordiantes_to_index(5, 7, 7),
        World::coordiantes_to_index(5, 6, 6),
        World::coordiantes_to_index(5, 6, 8),
    ];
    expected.sort();
    let mut got = drained.clone();
    got.sort();
    assert_eq!(got, expected);
    let again = t.drain();
    assert!(again.is_empty());
}

#[test]
fn update_at_corner_skips_out_of_bounds_neighbours() {
    let mut t = ChangeTracker::new();
    t.drain();
    t.update(0, 0, 0);
    let drained = t.drain();
    let mut expected = vec![
        World::coordiantes_to_index(0, 0, 0),
        World::coordiantes_to_index(1, 0, 0),
        World::coordiantes_to_index(0, 1, 0),
        World::coordiantes_to_index(0, 0, 1),
    ];
    expected.sort();
    let mut got = drained.clone();
    got.sort();
    assert_eq!(got, expected);
}

#[test]
fn update_out_of_bounds_marks_nothing() {
    let mut t = ChangeTracker::new();
    t.drain();
    t.update(WORLD_SIZE, WORLD_SIZE, WORLD_SIZE);
    assert!(t.drain().is_empty());
}

#[test]
fn updates_accumulate_until_drained() {
    let mut t = ChangeTracker::new();
    t.drain();
    t.update(2, 2, 2);
    t.update(2, 2, 2);
    t.update(20, 20, 20);
    let drained = t.drain();
    // two distinct touched cells, seven marks each, no duplicates
    assert_eq!(drained.len(), 14);
    for w in drained.windows(2) {
        assert!(w[0] < w[1]);
    }
}
