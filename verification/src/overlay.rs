//! Geometry of the windows drawn over the screen: the four bars that frame
//! the capture region, and the cross that stands in for the hidden cursor.

use vstd::prelude::*;

verus! {

/// Thickness of the region border, in pixels.
pub const BORDER_THICKNESS: i32 = 3;
/// Border color, as a Win32 `COLORREF` (BGR) for #0078D7.
pub const BORDER_COLOR: u32 = 0x00D77800;

/// Length of one arm of the proxy cursor's cross.
pub const ARM_LEN: i32 = 15;
/// Pen width of the proxy cursor's cross.
pub const PEN_WIDTH: i32 = 2;
/// Width and height of the proxy cursor's window.
pub const WIN_SIZE: i32 = 31;
/// Color of the cross (BGR: red).
pub const CROSS_COLOR: u32 = 0x000000FF;
/// Transparency key color (BGR: magenta).
pub const KEY_COLOR: u32 = 0x00FF00FF;

/// Position and size of a window: x, y, width, height.
pub type WindowRect = (i32, i32, i32, i32);

/// The bars that frame the region at (`x`, `y`) of size `w` by `h`:
/// top, bottom, left, right.
pub open spec fn spec_border_bars(x: int, y: int, w: int, h: int) -> Seq<(int, int, int, int)> {
    let t = BORDER_THICKNESS as int;
    seq![
        (x - t, y - t, w + 2 * t, t),
        (x - t, y + h, w + 2 * t, t),
        (x - t, y, t, h),
        (x + w, y, t, h),
    ]
}

/// Positions of the four border windows for a region (physical pixels).
pub fn border_bars(x: i32, y: i32, w: i32, h: i32) -> (r: [WindowRect; 4])
    requires
        x - BORDER_THICKNESS >= i32::MIN,
        y - BORDER_THICKNESS >= i32::MIN,
        i32::MIN <= x + w <= i32::MAX,
        i32::MIN <= y + h <= i32::MAX,
        i32::MIN <= w + 2 * BORDER_THICKNESS <= i32::MAX,
    ensures
        forall|i: int| 0 <= i < 4 ==> {
            let s = #[trigger] spec_border_bars(x as int, y as int, w as int, h as int)[i];
            r@[i].0 == s.0 && r@[i].1 == s.1 && r@[i].2 == s.2 && r@[i].3 == s.3
        },
{
    let t = BORDER_THICKNESS;
    // Positions: [top, bottom, left, right]
    [
        (x - t, y - t, w + 2 * t, t), // top
        (x - t, y + h, w + 2 * t, t), // bottom
        (x - t, y, t, h), // left
        (x + w, y, t, h), // right
    ]
}

/// Where the proxy cursor's window goes so that its cross is centred on the
/// mouse position.
pub fn cursor_proxy_origin(mouse_x: i32, mouse_y: i32) -> (r: (i32, i32))
    requires
        mouse_x - ARM_LEN >= i32::MIN,
        mouse_y - ARM_LEN >= i32::MIN,
    ensures
        r.0 == mouse_x - ARM_LEN,
        r.1 == mouse_y - ARM_LEN,
        r.0 + ARM_LEN == mouse_x && r.1 + ARM_LEN == mouse_y,
{
    (mouse_x - ARM_LEN, mouse_y - ARM_LEN)
}

/// The bars frame the region: they touch its edges from outside, without
/// covering it, and together span the region grown by the thickness on
/// every side.
pub proof fn lemma_border_frames_region(x: int, y: int, w: int, h: int)
    requires
        w >= 0,
        h >= 0,
    ensures
        ({
            let b = spec_border_bars(x, y, w, h);
            let t = BORDER_THICKNESS as int;
            &&& b[0].1 + b[0].3 == y
            &&& b[1].1 == y + h
            &&& b[2].0 + b[2].2 == x
            &&& b[3].0 == x + w
            &&& b[0].0 == x - t && b[0].0 + b[0].2 == x + w + t
            &&& b[1].0 == x - t && b[1].0 + b[1].2 == x + w + t
            &&& b[2].1 == y && b[2].1 + b[2].3 == y + h
            &&& b[3].1 == y && b[3].1 + b[3].3 == y + h
        }),
{
}

} // verus!
