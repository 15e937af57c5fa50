use bettercoding::id_set::IdSet;
use bettercoding::path_set::PathSet;

#[test]
fn ids_are_held_once() {
    let mut ids = IdSet::new();
    assert!(!ids.contains(1));
    ids.insert(1);
    ids.insert(2);
    ids.insert(1);
    assert!(ids.contains(1) && ids.contains(2));
    // Held once: gone after one removal.
    ids.remove(1);
    assert!(!ids.contains(1) && ids.contains(2));
    let mut keep = IdSet::new();
    keep.insert(2);
    keep.insert(3);
    ids.insert(4);
    ids.retain(&keep);
    assert!(ids.contains(2) && !ids.contains(3) && !ids.contains(4));
    ids.clear();
    assert!(!ids.contains(2));
}

#[test]
fn paths_are_held_once() {
    let mut paths = PathSet::new();
    assert_eq!(paths.len(), 0);
    paths.insert("/a");
    paths.insert("/b");
    paths.insert("/a");
    assert_eq!(paths.len(), 2);
    paths.remove("/c");
    assert_eq!(paths.len(), 2);
    paths.remove("/a");
    assert!(!paths.contains("/a") && paths.contains("/b"));
    assert_eq!(paths.len(), 1);
}
