use macroquad_fun::xy_range_iterator::XYRangeIterator;

#[test]
fn test_it_works_with_unit_square_at_origin() {
    let coords: Vec<(i64, i64)> = XYRangeIterator::new(0, 0, 1, 1).collect_coords();
    assert_eq!(coords, vec![(0, 0), (1, 0), (0, 1), (1, 1)]);
}

#[test]
fn test_it_works_on_non_square_rectangles() {
    let coords: Vec<(i64, i64)> = XYRangeIterator::new(0, 0, 1, 2).collect_coords();
    assert_eq!(coords, vec![(0, 0), (1, 0), (0, 1), (1, 1), (0, 2), (1, 2)]);
}

#[test]
fn test_it_works_when_width_is_zero() {
    let coords: Vec<(i64, i64)> = XYRangeIterator::new(0, 0, 0, 1).collect_coords();
    assert_eq!(coords, vec![(0, 0), (0, 1)]);
}

#[test]
fn test_it_works_when_height_is_zero() {
    let coords: Vec<(i64, i64)> = XYRangeIterator::new(0, 0, 1, 0).collect_coords();
    assert_eq!(coords, vec![(0, 0), (1, 0)]);
}

#[test]
fn test_it_works_away_from_origin() {
    let coords: Vec<(i64, i64)> = XYRangeIterator::new(3, 4, 4, 5).collect_coords();
    assert_eq!(coords, vec![(3, 4), (4, 4), (3, 5), (4, 5)]);
}

#[test]
fn next_yields_in_order_then_none_forever() {
    let mut it = XYRangeIterator::new(-1, -1, 0, -1);
    assert_eq!(it.next(), Some((-1, -1)));
    assert_eq!(it.next(), Some((0, -1)));
    assert_eq!(it.next(), None);
    assert_eq!(it.next(), None);
}

#[test]
fn empty_when_rows_are_reversed() {
    assert_eq!(XYRangeIterator::new(0, 3, 2, 2).collect_coords(), vec![]);
}

#[test]
fn reversed_columns_skip_the_first_row() {
    // With x1 > x2 every row is a single point at x1, and the first row is
    // passed over.
    assert_eq!(
        XYRangeIterator::new(5, 0, 3, 2).collect_coords(),
        vec![(5, 1), (5, 2)]
    );
}
