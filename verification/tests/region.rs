use aynime_issen::region::{frame_from_mapped_rows, is_access_lost, CaptureRegion, ScreenFrame};

#[test]
fn new_keeps_fields() {
    let r = CaptureRegion::new(1, 2, 3, 4);
    assert_eq!((r.x, r.y, r.width, r.height), (1, 2, 3, 4));
}

#[test]
fn clamp_shrinks_region_to_screen() {
    let r = CaptureRegion::new(100, 50, 2000, 2000).clamp_to_screen(1920, 1080);
    assert_eq!(r, CaptureRegion::new(100, 50, 1820, 1030));
}

#[test]
fn clamp_moves_origin_inside() {
    let r = CaptureRegion::new(5000, 5000, 10, 10).clamp_to_screen(1920, 1080);
    assert_eq!(r, CaptureRegion::new(1919, 1079, 1, 1));
}

#[test]
fn clamp_on_empty_screen() {
    let r = CaptureRegion::new(3, 3, 5, 5).clamp_to_screen(0, 0);
    assert_eq!(r, CaptureRegion::new(0, 0, 0, 0));
}

#[test]
fn clamp_keeps_inner_region_and_is_idempotent() {
    let r = CaptureRegion::new(10, 20, 30, 40);
    assert_eq!(r.clamp_to_screen(1920, 1080), r);
    let c = CaptureRegion::new(1900, 1000, 500, 500).clamp_to_screen(1920, 1080);
    assert_eq!(c.clamp_to_screen(1920, 1080), c);
}

fn frame_3x2() -> ScreenFrame {
    ScreenFrame { width: 3, height: 2, data: (0u8..24).collect() }
}

#[test]
fn extract_crops_and_swaps_red_blue() {
    let (rgba, w, h) = CaptureRegion::new(1, 0, 2, 2).extract_from_frame(&frame_3x2());
    assert_eq!((w, h), (2, 2));
    assert_eq!(rgba, vec![6, 5, 4, 7, 10, 9, 8, 11, 18, 17, 16, 19, 22, 21, 20, 23]);
}

#[test]
fn extract_clamps_first() {
    let (rgba, w, h) = CaptureRegion::new(2, 1, 100, 100).extract_from_frame(&frame_3x2());
    assert_eq!((w, h), (1, 1));
    assert_eq!(rgba, vec![22, 21, 20, 23]);
}

#[test]
fn extract_reads_frames_with_trailing_bytes() {
    let frame = ScreenFrame { width: 3, height: 2, data: (0u8..32).collect() };
    let (rgba, w, h) = CaptureRegion::new(1, 0, 2, 2).extract_from_frame(&frame);
    assert_eq!((w, h), (2, 2));
    assert_eq!(rgba, vec![6, 5, 4, 7, 10, 9, 8, 11, 18, 17, 16, 19, 22, 21, 20, 23]);
}

#[test]
fn mapped_rows_drop_row_padding() {
    // Two rows of 2 pixels (8 bytes) that lie 12 bytes apart.
    let src: Vec<u8> = (0u8..20).collect();
    let f = frame_from_mapped_rows(&src, 12, 2, 2);
    assert_eq!((f.width, f.height), (2, 2));
    assert_eq!(f.data, vec![0, 1, 2, 3, 4, 5, 6, 7, 12, 13, 14, 15, 16, 17, 18, 19]);
}

#[test]
fn mapped_rows_of_empty_texture() {
    let f = frame_from_mapped_rows(&[], 16, 4, 0);
    assert!(f.data.is_empty());
}

#[test]
fn access_lost_is_recognised_by_text() {
    assert!(is_access_lost("DXGI_ERROR_ACCESS_LOST"));
    assert!(is_access_lost("Failed to acquire next frame: HRESULT 0x887A0026"));
    assert!(!is_access_lost("DXGI_ERROR_WAIT_TIMEOUT"));
}

#[test]
fn clamped_regions_lie_inside_the_screen() {
    for (x, y, w, h) in [(0, 0, 5000, 5000), (1919, 1079, 9, 9), (10, 10, 0, 0), (4000, 0, 1, 1)] {
        let c = CaptureRegion::new(x, y, w, h).clamp_to_screen(1920, 1080);
        assert!(c.x < 1920 && c.y < 1080);
        assert!(c.x + c.width <= 1920 && c.y + c.height <= 1080);
    }
}
