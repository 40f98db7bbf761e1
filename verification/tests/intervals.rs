use hash_color_lib::intervals::allowed_ranges;

#[test]
fn nothing_excluded() {
    assert_eq!(allowed_ranges(&vec![], 360), vec![(0, 360)]);
}

#[test]
fn single_and_wrapping() {
    assert_eq!(allowed_ranges(&vec![(60, 300)], 360), vec![(0, 60), (300, 360)]);
    // A wrapping arc 340..30 split into two pieces.
    assert_eq!(allowed_ranges(&vec![(340, 360), (0, 30)], 360), vec![(30, 340)]);
}

#[test]
fn overlapping_and_touching_merge() {
    let ex = vec![(210, 270), (30, 90), (80, 100), (100, 120)];
    assert_eq!(allowed_ranges(&ex, 360), vec![(0, 30), (120, 210), (270, 360)]);
}

#[test]
fn full_exclusion_leaves_nothing() {
    assert_eq!(allowed_ranges(&vec![(0, 360)], 360), vec![]);
    assert_eq!(allowed_ranges(&vec![(0, 200), (150, 360)], 360), vec![]);
}

#[test]
fn empty_intervals_cover_nothing() {
    assert_eq!(allowed_ranges(&vec![(5, 5)], 10), vec![(0, 10)]);
    assert_eq!(allowed_ranges(&vec![(0, 0), (3, 4), (10, 10)], 10), vec![(0, 3), (4, 10)]);
}

#[test]
fn preset_plus_custom_arc() {
    // 90–180 plus the wrapping 340–30 (split as 340–360 and 0–30).
    let ex = vec![(90, 180), (340, 360), (0, 30)];
    assert_eq!(allowed_ranges(&ex, 360), vec![(30, 90), (180, 340)]);
}
