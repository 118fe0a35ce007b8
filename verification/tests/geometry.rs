use compositor::Rectangle;
use compositor::pipeline::Storage;

fn rect(x: u32, y: u32, width: u32, height: u32) -> Rectangle {
    Rectangle { x, y, width, height }
}

#[test]
fn snap_rounds_to_nearest_physical_pixel() {
    let r = rect(1, 10, 1, 3);
    assert_eq!(r.snap(100), rect(1, 10, 1, 3));
    assert_eq!(r.snap(150), rect(2, 15, 2, 5));
    assert_eq!(r.snap(40), rect(0, 4, 0, 1));
}

#[test]
fn visibility_needs_a_full_pixel_in_both_dimensions() {
    assert!(rect(0, 0, 1, 1).is_visible(100));
    assert!(!rect(0, 0, 0, 10).is_visible(100));
    assert!(!rect(0, 0, 10, 0).is_visible(100));
    assert!(!rect(0, 0, 1, 1).is_visible(40));
    assert!(rect(0, 0, 2, 2).is_visible(40));
}

#[test]
fn intersect_clamps_to_overlap() {
    let a = rect(0, 0, 100, 100);
    let b = rect(60, 70, 100, 100);
    assert_eq!(a.intersect(&b), rect(60, 70, 40, 30));
}

#[test]
fn intersect_of_disjoint_rectangles_is_empty() {
    let a = rect(0, 0, 10, 10);
    let b = rect(50, 50, 10, 10);
    let r = a.intersect(&b);
    assert_eq!(r.width, 0);
    assert_eq!(r.height, 0);
}

#[test]
fn storage_replaces_a_pipelines_own_entry_only() {
    let mut storage = Storage::new();
    storage.store(1, vec![1]);
    storage.store(2, vec![2]);
    storage.store(1, vec![3, 3]);
    assert_eq!(storage.get(1), Some(&vec![3u8, 3]));
    assert_eq!(storage.get(2), Some(&vec![2u8]));
    assert_eq!(storage.get(3), None);
}
