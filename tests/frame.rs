use tinygraph::frame::FrameBuffer;

#[test]
fn rows_are_laid_out_in_order() {
    let rows = vec![vec![[0.0f32, 0.0, 0.0], [0.1, 0.1, 0.1]], vec![[1.0, 1.0, 1.0], [1.1, 1.1, 1.1]], vec![[2.0, 2.0, 2.0], [2.1, 2.1, 2.1]]];
    let f = FrameBuffer::from_rows(2, rows).unwrap();
    assert_eq!((f.width, f.height), (2, 3));
    assert_eq!(f.buffer.len(), 6);
    assert_eq!(f.buffer[0], [0.0, 0.0, 0.0]);
    assert_eq!(f.buffer[3], [1.1, 1.1, 1.1]);
    assert_eq!(f.buffer[4], [2.0, 2.0, 2.0]);
}

#[test]
fn ragged_rows_are_refused() {
    assert!(FrameBuffer::from_rows(2, vec![vec![1u8, 2], vec![3]]).is_none());
    assert!(FrameBuffer::from_rows(1, vec![vec![1u8, 2]]).is_none());
}

#[test]
fn empty_frames() {
    let f = FrameBuffer::<u8>::from_rows(3, vec![]).unwrap();
    assert_eq!((f.width, f.height, f.buffer.len()), (3, 0, 0));
    let f = FrameBuffer::<u8>::from_rows(0, vec![vec![], vec![]]).unwrap();
    assert_eq!((f.width, f.height, f.buffer.len()), (0, 2, 0));
}

#[test]
fn export_order_runs_last_to_first() {
    let f = FrameBuffer::from_rows(2, vec![vec![1u8, 2], vec![3, 4]]).unwrap();
    assert_eq!(f.export_order(), vec![4, 3, 2, 1]);
    let e = FrameBuffer::<u8>::from_rows(2, vec![]).unwrap();
    assert!(e.export_order().is_empty());
}
