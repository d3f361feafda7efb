use aynime_issen::selection::{
    bgrx_to_opaque_rgba, lparam_xy, selection_result, OverlayPaint, SelectionAction, SelectionEvent,
    SelectionRect, SelectionState, VK_ESCAPE,
};

#[test]
fn lparam_decodes_signed_words() {
    assert_eq!(lparam_xy(0x0014_000A), (10, 20));
    assert_eq!(lparam_xy(((0xFFFEisize) << 16) | 0xFFFF), (-1, -2));
    assert_eq!(lparam_xy(0x8000_7FFF), (32767, -32768));
}

#[test]
fn drag_selects_rectangle() {
    let mut s = SelectionState::new(1920, 1080, true);
    assert_eq!(s.step(SelectionEvent::LeftButtonDown { x: 50, y: 60 }), SelectionAction::BeginDrag);
    assert_eq!(s.step(SelectionEvent::MouseMove { x: 20, y: 30 }), SelectionAction::Redraw);
    let rect = SelectionRect { left: 10, top: 10, width: 40, height: 50 };
    assert_eq!(
        s.step(SelectionEvent::LeftButtonUp { x: 10, y: 10 }),
        SelectionAction::Finish { rect, capture_pixels: true }
    );
    assert_eq!(s.outcome(), Some(rect));
    assert_eq!(s.step(SelectionEvent::Destroy), SelectionAction::Quit);
}

#[test]
fn small_drag_selects_nothing() {
    let mut s = SelectionState::new(800, 600, false);
    s.step(SelectionEvent::LeftButtonDown { x: 10, y: 10 });
    assert_eq!(s.step(SelectionEvent::LeftButtonUp { x: 13, y: 30 }), SelectionAction::ReleaseAndRedraw);
    assert_eq!(s.outcome(), None);
    assert!(!s.dragging);
}

#[test]
fn moves_without_drag_are_ignored() {
    let mut s = SelectionState::new(800, 600, false);
    let before = s;
    assert_eq!(s.step(SelectionEvent::MouseMove { x: 5, y: 5 }), SelectionAction::Handled);
    assert_eq!(s.step(SelectionEvent::LeftButtonUp { x: 5, y: 5 }), SelectionAction::Handled);
    assert_eq!(s, before);
    assert_eq!(s.step(SelectionEvent::Other), SelectionAction::PassToDefault);
    assert_eq!(s.step(SelectionEvent::Paint), SelectionAction::Paint);
}

#[test]
fn escape_and_right_click_cancel() {
    let mut s = SelectionState::new(800, 600, false);
    assert_eq!(s.step(SelectionEvent::KeyDown { key: 0x41 }), SelectionAction::Handled);
    assert!(!s.cancelled);
    assert_eq!(s.step(SelectionEvent::KeyDown { key: VK_ESCAPE }), SelectionAction::Cancel);
    assert_eq!(s.outcome(), None);
    let mut t = SelectionState::new(800, 600, false);
    t.step(SelectionEvent::LeftButtonDown { x: 0, y: 0 });
    assert_eq!(t.step(SelectionEvent::RightButtonDown), SelectionAction::Cancel);
    assert_eq!(t.outcome(), None);
}

#[test]
fn cancel_stays_after_later_selection() {
    let mut s = SelectionState::new(800, 600, false);
    s.step(SelectionEvent::RightButtonDown);
    s.step(SelectionEvent::LeftButtonDown { x: 0, y: 0 });
    s.step(SelectionEvent::LeftButtonUp { x: 100, y: 100 });
    assert_eq!(s.outcome(), None);
    assert!(selection_result(&s, None).is_none());
}

#[test]
fn result_carries_rect_and_pixels() {
    let mut s = SelectionState::new(800, 600, true);
    s.step(SelectionEvent::LeftButtonDown { x: 4, y: 4 });
    s.step(SelectionEvent::LeftButtonUp { x: 10, y: 12 });
    let pixels: Vec<u8> = (0..6 * 8 * 4).map(|i| (i % 251) as u8).collect();
    let r = selection_result(&s, Some(pixels.clone())).unwrap();
    assert_eq!((r.x, r.y, r.width, r.height), (4, 4, 6, 8));
    assert_eq!(r.rgba_data, Some(pixels));
}

#[test]
fn paint_plan_shows_selection_and_label() {
    let mut s = SelectionState::new(1920, 1080, false);
    s.step(SelectionEvent::LeftButtonDown { x: 100, y: 10 });
    s.step(SelectionEvent::MouseMove { x: 140, y: 60 });
    assert_eq!(
        s.paint_plan(),
        OverlayPaint::Selection {
            left: 100,
            top: 10,
            right: 140,
            bottom: 60,
            label: "40x50".to_string(),
            label_x: 104,
            label_y: 0,
        }
    );
}

#[test]
fn paint_plan_instructions_and_empty_drag() {
    let mut s = SelectionState::new(1920, 1080, false);
    assert_eq!(s.paint_plan(), OverlayPaint::Instructions { left: 0, top: 520, right: 1920, bottom: 560 });
    s.step(SelectionEvent::LeftButtonDown { x: 100, y: 100 });
    assert_eq!(s.paint_plan(), OverlayPaint::Dimmed);
}

#[test]
fn bgrx_pixels_become_opaque_rgba() {
    assert_eq!(bgrx_to_opaque_rgba(&[1, 2, 3, 4, 5, 6, 7, 8]), vec![3, 2, 1, 255, 7, 6, 5, 255]);
    assert_eq!(bgrx_to_opaque_rgba(&[1, 2, 3]), Vec::<u8>::new());
}
