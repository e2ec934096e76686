use rust_gomoku::eval::caches::{caches_backend_name, EvalCaches};

#[test]
fn snapshot_then_restore_undoes_shape_changes() {
    let mut caches = EvalCaches::new();
    caches.set_shape_value(0, 1, 2, 3, 7);
    let snapshot = caches.snapshot();
    assert_eq!(caches.active_snapshot_count, 1);
    caches.set_shape_value(0, 1, 2, 3, 9);
    caches.set_shape_value(1, 14, 14, 0, -5);
    caches.set_shape_value(1, 14, 14, 0, 4);
    assert_eq!(caches.shape_log_len(), 3);
    caches.restore_snapshot(&snapshot);
    assert_eq!(caches.shape_cache[0][1][2][3], 7);
    assert_eq!(caches.shape_cache[1][14][14][0], 0);
    assert_eq!(caches.shape_log_len(), 0);
    assert_eq!(caches.active_snapshot_count, 0);
}

#[test]
fn writes_without_a_snapshot_are_not_logged() {
    let mut caches = EvalCaches::new();
    caches.set_shape_value(0, 0, 0, 0, 1);
    caches.set_shape_value(0, 0, 0, 0, 1);
    assert_eq!(caches.shape_log_len(), 0);
    let _ = caches.snapshot();
    caches.set_shape_value(0, 0, 0, 0, 1);
    assert_eq!(caches.shape_log_len(), 0);
    caches.set_shape_value(0, 0, 0, 0, 2);
    assert_eq!(caches.shape_log_len(), 1);
}

#[test]
fn restore_snapshot_undoes_logged_value_changes_and_scalars() {
    let mut caches = EvalCaches::new();
    caches.occupied_len = 3;
    let snapshot = caches.snapshot();
    caches.value_log.push((1, 2, 3, 0, 0));
    caches.value_cache[1][2][3] = 40;
    caches.attack_cache[1][2][3] = 5;
    caches.occupied_len = 9;
    caches.initialized = true;
    caches.restore_snapshot(&snapshot);
    assert_eq!(caches.value_cache[1][2][3], 0);
    assert_eq!(caches.attack_cache[1][2][3], 0);
    assert_eq!(caches.occupied_len, 3);
    assert!(!caches.initialized);
    assert_eq!(caches.value_log_len(), 0);
}

#[test]
fn copy_restore_from_and_reset() {
    let mut caches = EvalCaches::new();
    caches.set_shape_value(1, 5, 6, 2, 11);
    let copy = caches.copy();
    assert_eq!(copy, caches);
    let mut other = EvalCaches::new();
    let _ = other.snapshot();
    other.set_shape_value(0, 0, 0, 0, 3);
    other.restore_from(&copy);
    assert_eq!(other.shape_cache[1][5][6][2], 11);
    assert_eq!(other.shape_cache[0][0][0][0], 0);
    assert_eq!(other.shape_log_len(), 0);
    assert_eq!(other.active_snapshot_count, 0);
    other.reset();
    assert_eq!(other, EvalCaches::new());
    assert_eq!(caches_backend_name(), "python");
}

#[test]
fn nested_snapshots_restore_in_lifo_order() {
    let mut caches = EvalCaches::new();
    caches.set_shape_value(0, 3, 3, 1, 11);
    let outer = caches.snapshot();
    caches.set_shape_value(0, 3, 3, 1, 12);
    let inner = caches.snapshot();
    caches.set_shape_value(0, 3, 3, 1, 13);
    caches.set_shape_value(1, 0, 0, 2, 6);
    caches.restore_snapshot(&inner);
    assert_eq!(caches.shape_cache[0][3][3][1], 12);
    assert_eq!(caches.shape_cache[1][0][0][2], 0);
    caches.restore_snapshot(&outer);
    assert_eq!(caches.shape_cache[0][3][3][1], 11);
    assert_eq!(caches.shape_log_len(), 0);
    assert_eq!(caches.active_snapshot_count, 0);
}
