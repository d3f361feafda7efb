use aynime_issen::clipboard::clipboard_dib;
use aynime_issen::region::{CaptureRegion, ScreenFrame};

fn header(w: u8, h: u8, size: u8) -> Vec<u8> {
    let mut v = vec![40, 0, 0, 0, w, 0, 0, 0, h, 0, 0, 0, 1, 0, 24, 0, 0, 0, 0, 0, size, 0, 0, 0];
    v.extend_from_slice(&[0u8; 16]);
    v
}

#[test]
fn one_pixel_dib() {
    let dib = clipboard_dib(&[10, 20, 30, 40], 1, 1);
    let mut expected = header(1, 1, 4);
    expected.extend_from_slice(&[30, 20, 10, 0]);
    assert_eq!(dib, expected);
}

#[test]
fn dib_rows_are_flipped_and_padded() {
    let data = [1, 2, 3, 4, 5, 6, 7, 8, 9, 10, 11, 12, 13, 14, 15, 16];
    let dib = clipboard_dib(&data, 2, 2);
    let mut expected = header(2, 2, 16);
    expected.extend_from_slice(&[11, 10, 9, 15, 14, 13, 0, 0, 3, 2, 1, 7, 6, 5, 0, 0]);
    assert_eq!(dib, expected);
}

#[test]
fn dib_of_wide_image_has_aligned_rows() {
    let data = vec![7u8; 5 * 3 * 4];
    let dib = clipboard_dib(&data, 5, 3);
    // 5 pixels * 3 bytes = 15, padded to 16.
    assert_eq!(dib.len(), 40 + 16 * 3);
    assert_eq!(&dib[20..24], &[48, 0, 0, 0]);
}

#[test]
fn empty_dib_is_header_only() {
    assert_eq!(clipboard_dib(&[], 0, 0), header(0, 0, 0));
}

#[test]
fn clipboard_holds_captured_screen_pixels() {
    let frame = ScreenFrame { width: 3, height: 2, data: (0u8..24).collect() };
    let (rgba, w, h) = CaptureRegion::new(1, 0, 2, 2).extract_from_frame(&frame);
    let dib = clipboard_dib(&rgba, w, h);
    let rb = 8;
    for y in 0..2usize {
        for x in 0..2usize {
            for c in 0..3usize {
                assert_eq!(dib[40 + (1 - y) * rb + x * 3 + c], frame.data[(y * 3 + 1 + x) * 4 + c]);
            }
        }
    }
}
