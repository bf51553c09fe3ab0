use blaulicht::window::RollingWindow;

#[test]
fn window_keeps_last_capacity_items_in_order() {
    let mut w = RollingWindow::new(3);
    for x in 1..=7usize {
        w.push(x);
    }
    assert_eq!(w.len(), 3);
    assert_eq!(w.snapshot(), vec![5, 6, 7]);
    assert_eq!(w.sum(), 18);
}

#[test]
fn window_below_capacity_keeps_everything() {
    let mut w = RollingWindow::new(5);
    w.push(4);
    w.push(9);
    assert_eq!(w.snapshot(), vec![4, 9]);
    assert_eq!(w.capacity(), 5);
}

#[test]
fn window_capacity_one_holds_latest() {
    let mut w = RollingWindow::new(1);
    w.push(10);
    w.push(20);
    assert_eq!(w.snapshot(), vec![20]);
    assert_eq!(w.min(), 20);
    assert_eq!(w.max(), 20);
}

#[test]
fn empty_window_sentinels() {
    let w = RollingWindow::new(4);
    assert_eq!(w.len(), 0);
    assert_eq!(w.sum(), 0);
    assert_eq!(w.min(), 0);
    assert_eq!(w.max(), usize::MAX);
}

#[test]
fn window_min_max_after_eviction() {
    let mut w = RollingWindow::new(3);
    for x in [1usize, 50, 7, 8, 9] {
        w.push(x);
    }
    assert_eq!(w.min(), 7);
    assert_eq!(w.max(), 9);
}

#[test]
fn window_sum_of_large_values_does_not_overflow() {
    let mut w = RollingWindow::new(4);
    for _ in 0..6 {
        w.push(usize::MAX);
    }
    assert_eq!(w.sum(), 4 * (usize::MAX as u128));
}
