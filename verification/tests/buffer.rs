use raycaster::buffer::{PixelBuffer, BYTES_PER_PIXEL};

#[test]
fn new_buffer_is_black() {
    let b = PixelBuffer::new(4, 3);
    assert_eq!(BYTES_PER_PIXEL, 3);
    assert_eq!((b.width(), b.height(), b.stride()), (4, 3, 4));
    assert_eq!(b.data(), &vec![0u8; 36]);
    assert_eq!(b.get_pixel(3, 2), Some([0, 0, 0]));
}

#[test]
fn empty_buffer_has_no_pixel() {
    let mut b = PixelBuffer::new(0, 0);
    assert_eq!(b.data().len(), 0);
    assert_eq!(b.get_pixel(0, 0), None);
    assert!(!b.put_pixel(0, 0, &[1, 2, 3]));
    let mut b = PixelBuffer::new(5, 0);
    assert!(!b.put_pixel(0, 0, &[1, 2, 3]));
    assert_eq!(b.into_raw(), Vec::<u8>::new());
}

#[test]
fn put_pixel_writes_three_bytes_at_its_index() {
    let mut b = PixelBuffer::new(4, 3);
    assert!(b.put_pixel(1, 2, &[7, 8, 9]));
    let mut expected = vec![0u8; 36];
    // (row * stride + column) * 3 = (2 * 4 + 1) * 3 = 27
    expected[27] = 7;
    expected[28] = 8;
    expected[29] = 9;
    assert_eq!(b.data(), &expected);
    assert_eq!(b.get_pixel(1, 2), Some([7, 8, 9]));
    assert_eq!(b.get_pixel(2, 1), Some([0, 0, 0]));
}

#[test]
fn put_pixel_outside_is_left_out() {
    let mut b = PixelBuffer::new(4, 3);
    assert!(!b.put_pixel(4, 0, &[7, 8, 9]));
    assert!(!b.put_pixel(0, 3, &[7, 8, 9]));
    assert!(!b.put_pixel(u32::MAX, u32::MAX, &[7, 8, 9]));
    assert_eq!(b.data(), &vec![0u8; 36]);
    assert_eq!(b.get_pixel(4, 0), None);
    assert_eq!(b.get_pixel(0, 3), None);
}

#[test]
fn put_pixel_leaves_the_other_pixels() {
    let mut b = PixelBuffer::new(3, 3);
    for r in 0..3u32 {
        for c in 0..3u32 {
            assert!(b.put_pixel(c, r, &[(10 * r + c) as u8, 1, 2]));
        }
    }
    assert!(b.put_pixel(1, 1, &[200, 201, 202]));
    for r in 0..3u32 {
        for c in 0..3u32 {
            let expected = if (c, r) == (1, 1) { [200, 201, 202] } else { [(10 * r + c) as u8, 1, 2] };
            assert_eq!(b.get_pixel(c, r), Some(expected));
        }
    }
}

#[test]
fn from_raw_takes_bytes_of_the_right_length() {
    let b = PixelBuffer::from_raw(2, 2, 3, (0..18).collect()).unwrap();
    assert_eq!((b.width(), b.height(), b.stride()), (2, 2, 3));
    // Row 1 starts at pixel 3: byte 9.
    assert_eq!(b.get_pixel(0, 1), Some([9, 10, 11]));
    assert_eq!(b.get_pixel(1, 1), Some([12, 13, 14]));
    // The third pixel of a row is in memory but not shown.
    assert_eq!(b.get_pixel(2, 1), None);
    assert_eq!(b.into_raw(), (0..18).collect::<Vec<u8>>());
}

#[test]
fn from_raw_refuses_a_wrong_length_or_a_short_stride() {
    assert!(PixelBuffer::from_raw(2, 2, 3, vec![0; 17]).is_none());
    assert!(PixelBuffer::from_raw(2, 2, 3, vec![0; 19]).is_none());
    assert!(PixelBuffer::from_raw(2, 2, 2, vec![0; 18]).is_none());
    assert!(PixelBuffer::from_raw(3, 2, 2, vec![0; 12]).is_none());
    assert!(PixelBuffer::from_raw(2, 2, 2, vec![0; 12]).is_some());
    assert!(PixelBuffer::from_raw(0, 0, 0, vec![]).is_some());
}

#[test]
fn padding_of_a_stride_is_never_written() {
    let mut b = PixelBuffer::from_raw(2, 2, 3, vec![5; 18]).unwrap();
    assert!(b.put_pixel(1, 0, &[1, 2, 3]));
    assert!(!b.put_pixel(2, 0, &[1, 2, 3]));
    assert_eq!(b.into_raw(), vec![5, 5, 5, 1, 2, 3, 5, 5, 5, 5, 5, 5, 5, 5, 5, 5, 5, 5]);
}
