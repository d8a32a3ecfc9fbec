use raytrace::pixels::{pixel_coords, PixelBuffer};

#[test]
fn new_buffer_is_black() {
    let b = PixelBuffer::new(4, 3);
    assert_eq!(b.width(), 4);
    assert_eq!(b.height(), 3);
    for y in 0..3 {
        for x in 0..4 {
            assert_eq!(b.get(x, y), [0, 0, 0]);
        }
    }
    assert_eq!(b.into_bytes(), vec![0u8; 36]);
}

#[test]
fn row_major_index() {
    let b = PixelBuffer::new(480, 270);
    assert_eq!(b.index(0, 0), 0);
    assert_eq!(b.index(479, 0), 479);
    assert_eq!(b.index(0, 1), 480);
    assert_eq!(b.index(5, 2), 965);
    assert_eq!(b.index(479, 269), 480 * 270 - 1);
}

#[test]
fn coords_inverts_index() {
    let b = PixelBuffer::new(7, 5);
    for i in 0..35usize {
        let (x, y) = b.coords(i);
        assert_eq!(b.index(x, y), i);
    }
    assert_eq!(b.coords(16), (2, 2));
}

#[test]
fn set_writes_one_cell() {
    let mut b = PixelBuffer::new(3, 2);
    b.set(1, 1, [10, 20, 30]);
    assert_eq!(b.get(1, 1), [10, 20, 30]);
    assert_eq!(b.get(1, 0), [0, 0, 0]);
    assert_eq!(
        b.into_bytes(),
        vec![0, 0, 0, 0, 0, 0, 0, 0, 0, 0, 0, 0, 10, 20, 30, 0, 0, 0]
    );
}

#[test]
fn from_pixels_checks_count() {
    let px = vec![[1, 2, 3], [4, 5, 6], [7, 8, 9], [10, 11, 12]];
    assert!(PixelBuffer::from_pixels(3, 2, &px).is_none());
    assert!(PixelBuffer::from_pixels(0, 4, &px).is_none());
    let b = PixelBuffer::from_pixels(2, 2, &px).unwrap();
    assert_eq!(b.get(1, 0), [4, 5, 6]);
    assert_eq!(b.get(0, 1), [7, 8, 9]);
    assert_eq!(b.into_bytes(), (1..=12).collect::<Vec<u8>>());
}

#[test]
fn empty_image() {
    let b = PixelBuffer::new(0, 0);
    assert!(b.into_bytes().is_empty());
    assert!(PixelBuffer::from_pixels(0, 0, &Vec::new()).is_some());
}

#[test]
fn pixel_coords_row_major() {
    assert_eq!(pixel_coords(480, 270, 0), (0, 0));
    assert_eq!(pixel_coords(480, 270, 479), (479, 0));
    assert_eq!(pixel_coords(480, 270, 480), (0, 1));
    assert_eq!(pixel_coords(480, 270, 965), (5, 2));
    assert_eq!(pixel_coords(480, 270, 480 * 270 - 1), (479, 269));
}

#[test]
fn from_pixels_rejects_oversized_row() {
    let empty: Vec<[u8; 3]> = Vec::new();
    let r = PixelBuffer::from_pixels(0x6000_0000, 0, &empty);
    if usize::BITS == 32 {
        assert!(r.is_none());
    } else {
        let b = r.unwrap();
        assert_eq!(b.width(), 0x6000_0000);
        assert_eq!(b.height(), 0);
        assert!(b.into_bytes().is_empty());
    }
}
