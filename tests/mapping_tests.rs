use blaulicht::mapping::{beat_index, MAX_BEAT_VOLUME};

#[test]
fn map_midpoint() {
    assert_eq!(blaulicht::mapping::map(5, 0, 10, 0, 255), 127);
}

#[test]
fn map_flat_range_gives_out_min() {
    assert_eq!(blaulicht::mapping::map(3, 3, 3, 7, 9), 7);
    assert_eq!(blaulicht::mapping::map(0, 0, 0, 0, 255), 0);
}

#[test]
fn map_floors_negative_results_at_zero() {
    assert_eq!(blaulicht::mapping::map(-5, 0, 10, 0, 100), 0);
}

#[test]
fn map_truncates_toward_zero() {
    // (-1 - 0) * 2 / 3 rounds toward zero to 0, then 10 is added.
    assert_eq!(blaulicht::mapping::map(-1, 0, 3, 10, 12), 10);
}

#[test]
fn map_does_not_cap_at_out_max() {
    assert_eq!(blaulicht::mapping::map(20, 0, 10, 0, 100), 200);
}

#[test]
fn beat_index_bounds() {
    assert_eq!(beat_index(0, 0, 100), 0);
    assert_eq!(beat_index(100, 0, 100), MAX_BEAT_VOLUME);
    assert_eq!(beat_index(50, 0, 100), 127);
    assert_eq!(beat_index(4, 4, 4), 0);
}
