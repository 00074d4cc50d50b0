use tinygraph::background::Background;

fn two_by_two() -> Background {
    // row 0: (1,2,3) (4,5,6); row 1: (7,8,9) (10,11,12)
    Background::new(2, 2, (1..=12).collect()).unwrap()
}

#[test]
fn new_checks_size() {
    assert!(Background::new(0, 1, vec![]).is_none());
    assert!(Background::new(1, 0, vec![]).is_none());
    assert!(Background::new(2, 1, vec![0; 5]).is_none());
    assert!(Background::new(2, 1, vec![0; 7]).is_none());
    assert!(Background::new(u32::MAX, u32::MAX, vec![0; 3]).is_none());
    let b = Background::new(2, 1, vec![0; 6]).unwrap();
    assert_eq!((b.width(), b.height()), (2, 1));
}

#[test]
fn pixels_are_row_major() {
    let b = two_by_two();
    assert_eq!(b.pixel(0, 0), [1, 2, 3]);
    assert_eq!(b.pixel(1, 0), [4, 5, 6]);
    assert_eq!(b.pixel(0, 1), [7, 8, 9]);
    assert_eq!(b.pixel(1, 1), [10, 11, 12]);
}

#[test]
fn coordinates_past_the_edge_are_clamped() {
    let b = two_by_two();
    assert_eq!(b.pixel(2, 0), [4, 5, 6]);
    assert_eq!(b.pixel(0, 7), [7, 8, 9]);
    assert_eq!(b.pixel(u32::MAX, u32::MAX), [10, 11, 12]);
}
