//! The drag-to-select screen overlay: decoding of mouse coordinates, the
//! selection state machine driven by window messages, the layout of what the
//! overlay paints, and the conversion of the frozen screenshot's pixels.

use vstd::prelude::*;
use crate::arith::lemma_grid_index;
use crate::region::bgra_channel_for_rgba;
use crate::text::{format_size, size_label};

verus! {

/// Virtual-key code of the Esc key.
pub const VK_ESCAPE: usize = 0x1B;

/// Result of the selection operation.
#[derive(Debug, Clone)]
pub struct SelectionResult {
    pub x: i32,
    pub y: i32,
    pub width: i32,
    pub height: i32,
    /// If capture_on_select was true, contains RGBA pixel data of the selected region
    /// extracted from the frozen screenshot (the frame at selection start).
    pub rgba_data: Option<Vec<u8>>,
}

/// The 16-bit word `w` read as a signed (two's complement) number.
pub open spec fn signed_word(w: int) -> int {
    if w >= 0x8000 { w - 0x10000 } else { w }
}

/// The signed x (low word) and y (high word) coordinates packed in a mouse
/// message's `LPARAM`.
pub fn lparam_xy(lparam: isize) -> (r: (i32, i32))
    ensures
        r.0 == signed_word((lparam & 0xFFFF) as int),
        r.1 == signed_word(((lparam >> 16) & 0xFFFF) as int),
        -0x8000 <= r.0 < 0x8000,
        -0x8000 <= r.1 < 0x8000,
{
    let lo = lparam & 0xFFFF;
    let hi = (lparam >> 16) & 0xFFFF;
    assert(0 <= lo < 0x10000) by (bit_vector)
        requires lo == lparam & 0xFFFF;
    assert(0 <= hi < 0x10000) by (bit_vector)
        requires hi == (lparam >> 16) & 0xFFFF;
    let x: i32 = if lo >= 0x8000 { (lo - 0x10000) as i32 } else { lo as i32 };
    let y: i32 = if hi >= 0x8000 { (hi - 0x10000) as i32 } else { hi as i32 };
    (x, y)
}

/// A selected rectangle: its top-left corner and its size.
#[derive(Debug, Clone, Copy, PartialEq, Eq, Structural)]
pub struct SelectionRect {
    pub left: i32,
    pub top: i32,
    pub width: i32,
    pub height: i32,
}

/// The state of the selection overlay.
#[derive(Debug, Clone, Copy, PartialEq, Eq, Structural)]
pub struct SelectionState {
    pub screen_w: i32,
    pub screen_h: i32,
    pub dragging: bool,
    pub start_x: i32,
    pub start_y: i32,
    pub current_x: i32,
    pub current_y: i32,
    pub selected: Option<SelectionRect>,
    pub cancelled: bool,
    pub capture_on_select: bool,
}

/// A window message that the overlay reacts to.
#[derive(Debug, Clone, Copy, PartialEq, Eq, Structural)]
pub enum SelectionEvent {
    Paint,
    LeftButtonDown { x: i32, y: i32 },
    MouseMove { x: i32, y: i32 },
    LeftButtonUp { x: i32, y: i32 },
    RightButtonDown,
    KeyDown { key: usize },
    Destroy,
    Other,
}

/// What the window procedure does for a message.
#[derive(Debug, Clone, Copy, PartialEq, Eq, Structural)]
pub enum SelectionAction {
    /// Hand the message to the default window procedure.
    PassToDefault,
    /// Nothing to do; the message counts as handled.
    Handled,
    /// Paint the overlay as `paint_plan` lays it out.
    Paint,
    /// Capture the mouse.
    BeginDrag,
    /// Invalidate the window so that it is painted again.
    Redraw,
    /// Release the mouse and invalidate the window.
    ReleaseAndRedraw,
    /// Release the mouse, take the pixels of `rect` if `capture_pixels`,
    /// and destroy the window.
    Finish { rect: SelectionRect, capture_pixels: bool },
    /// Release the mouse and destroy the window.
    Cancel,
    /// Post the quit message that ends the message loop.
    Quit,
}

/// A coordinate that a mouse message can carry.
pub open spec fn in_word_range(v: int) -> bool {
    -0x8000 <= v < 0x8000
}

pub open spec fn min_i(a: int, b: int) -> int {
    if a <= b { a } else { b }
}

pub open spec fn max_i(a: int, b: int) -> int {
    if a >= b { a } else { b }
}

/// The rectangle spanned by two corners.
pub open spec fn span(x0: int, y0: int, x1: int, y1: int) -> SelectionRect {
    SelectionRect {
        left: min_i(x0, x1) as i32,
        top: min_i(y0, y1) as i32,
        width: (max_i(x0, x1) - min_i(x0, x1)) as i32,
        height: (max_i(y0, y1) - min_i(y0, y1)) as i32,
    }
}

/// Whether a mouse event carries coordinates in range.
pub open spec fn event_in_range(e: SelectionEvent) -> bool {
    match e {
        SelectionEvent::LeftButtonDown { x, y } => in_word_range(x as int) && in_word_range(y as int),
        SelectionEvent::MouseMove { x, y } => in_word_range(x as int) && in_word_range(y as int),
        SelectionEvent::LeftButtonUp { x, y } => in_word_range(x as int) && in_word_range(y as int),
        _ => true,
    }
}

impl SelectionState {
    /// The overlay's state when it opens on a screen of the given size.
    pub fn new(screen_w: i32, screen_h: i32, capture_on_select: bool) -> (s: Self)
        requires
            screen_w >= 0,
            screen_h >= 0,
        ensures
            s.wf(),
            s == (SelectionState {
                screen_w,
                screen_h,
                dragging: false,
                start_x: 0,
                start_y: 0,
                current_x: 0,
                current_y: 0,
                selected: None,
                cancelled: false,
                capture_on_select,
            }),
    {
        SelectionState {
            screen_w,
            screen_h,
            dragging: false,
            start_x: 0,
            start_y: 0,
            current_x: 0,
            current_y: 0,
            selected: None,
            cancelled: false,
            capture_on_select,
        }
    }

    /// Coordinates stay in the range of a mouse message, the screen size is
    /// not negative, and a selected rectangle is at least 4 by 4.
    pub open spec fn wf(self) -> bool {
        &&& self.screen_w >= 0
        &&& self.screen_h >= 0
        &&& in_word_range(self.start_x as int)
        &&& in_word_range(self.start_y as int)
        &&& in_word_range(self.current_x as int)
        &&& in_word_range(self.current_y as int)
        &&& self.selected matches Some(r) ==> r.width >= 4 && r.height >= 4
    }

    /// The state after a message, and what the window procedure does for it.
    pub open spec fn spec_step(self, e: SelectionEvent) -> (SelectionState, SelectionAction) {
        match e {
            SelectionEvent::Paint => (self, SelectionAction::Paint),
            SelectionEvent::LeftButtonDown { x, y } => (
                SelectionState { dragging: true, start_x: x, start_y: y, current_x: x, current_y: y, ..self },
                SelectionAction::BeginDrag,
            ),
            SelectionEvent::MouseMove { x, y } => {
                if self.dragging {
                    (SelectionState { current_x: x, current_y: y, ..self }, SelectionAction::Redraw)
                } else {
                    (self, SelectionAction::Handled)
                }
            },
            SelectionEvent::LeftButtonUp { x, y } => {
                if self.dragging {
                    let rect = span(self.start_x as int, self.start_y as int, x as int, y as int);
                    let released = SelectionState { dragging: false, current_x: x, current_y: y, ..self };
                    if rect.width >= 4 && rect.height >= 4 {
                        (
                            SelectionState { selected: Some(rect), ..released },
                            SelectionAction::Finish { rect, capture_pixels: self.capture_on_select },
                        )
                    } else {
                        (released, SelectionAction::ReleaseAndRedraw)
                    }
                } else {
                    (self, SelectionAction::Handled)
                }
            },
            SelectionEvent::RightButtonDown => (
                SelectionState { cancelled: true, ..self },
                SelectionAction::Cancel,
            ),
            SelectionEvent::KeyDown { key } => {
                if key == VK_ESCAPE {
                    (SelectionState { cancelled: true, ..self }, SelectionAction::Cancel)
                } else {
                    (self, SelectionAction::Handled)
                }
            },
            SelectionEvent::Destroy => (self, SelectionAction::Quit),
            SelectionEvent::Other => (self, SelectionAction::PassToDefault),
        }
    }

    /// React to a window message.
    pub fn step(&mut self, e: SelectionEvent) -> (a: SelectionAction)
        requires
            old(self).wf(),
            event_in_range(e),
        ensures
            final(self).wf(),
            (*final(self), a) == old(self).spec_step(e),
    {
        match e {
            SelectionEvent::Paint => SelectionAction::Paint,
            SelectionEvent::LeftButtonDown { x, y } => {
                self.dragging = true;
                self.start_x = x;
                self.start_y = y;
                self.current_x = x;
                self.current_y = y;
                SelectionAction::BeginDrag
            },
            SelectionEvent::MouseMove { x, y } => {
                if self.dragging {
                    self.current_x = x;
                    self.current_y = y;
                    SelectionAction::Redraw
                } else {
                    SelectionAction::Handled
                }
            },
            SelectionEvent::LeftButtonUp { x, y } => {
                if self.dragging {
                    self.dragging = false;
                    self.current_x = x;
                    self.current_y = y;
                    let left = if self.start_x <= x { self.start_x } else { x };
                    let top = if self.start_y <= y { self.start_y } else { y };
                    let right = if self.start_x >= x { self.start_x } else { x };
                    let bottom = if self.start_y >= y { self.start_y } else { y };
                    let w = right - left;
                    let h = bottom - top;
                    if w >= 4 && h >= 4 {
                        let rect = SelectionRect { left, top, width: w, height: h };
                        self.selected = Some(rect);
                        SelectionAction::Finish { rect, capture_pixels: self.capture_on_select }
                    } else {
                        SelectionAction::ReleaseAndRedraw
                    }
                } else {
                    SelectionAction::Handled
                }
            },
            SelectionEvent::RightButtonDown => {
                self.cancelled = true;
                SelectionAction::Cancel
            },
            SelectionEvent::KeyDown { key } => {
                if key == VK_ESCAPE {
                    self.cancelled = true;
                    SelectionAction::Cancel
                } else {
                    SelectionAction::Handled
                }
            },
            SelectionEvent::Destroy => SelectionAction::Quit,
            SelectionEvent::Other => SelectionAction::PassToDefault,
        }
    }

    /// The selected rectangle once the overlay has closed: none if the user
    /// cancelled or never completed a selection.
    pub open spec fn spec_outcome(self) -> Option<SelectionRect> {
        if self.cancelled { None } else { self.selected }
    }

    /// The selected rectangle once the overlay has closed.
    pub fn outcome(&self) -> (r: Option<SelectionRect>)
        ensures
            r == self.spec_outcome(),
    {
        if self.cancelled { None } else { self.selected }
    }
}

/// The result that the overlay hands back, with the pixels taken of the
/// selected rectangle, if any. Pixels are taken only when the overlay was
/// opened to capture on select, and then four bytes for each pixel of the
/// rectangle.
pub fn selection_result(state: &SelectionState, rgba_data: Option<Vec<u8>>) -> (r: Option<SelectionResult>)
    requires
        rgba_data is Some ==> state.capture_on_select,
        (rgba_data is Some && state.spec_outcome() is Some) ==> rgba_data->0.len()
            == state.spec_outcome()->0.width * state.spec_outcome()->0.height * 4,
    ensures
        match state.spec_outcome() {
            None => r is None,
            Some(rect) => r matches Some(res) && res.x == rect.left && res.y == rect.top
                && res.width == rect.width && res.height == rect.height && res.rgba_data == rgba_data,
        },
        (r is Some && r->0.rgba_data is Some) ==> state.capture_on_select
            && r->0.rgba_data->0.len() == r->0.width * r->0.height * 4,
{
    match state.outcome() {
        None => None,
        Some(rect) => Some(SelectionResult {
            x: rect.left,
            y: rect.top,
            width: rect.width,
            height: rect.height,
            rgba_data,
        }),
    }
}

/// The RGBA bytes, fully opaque, of the pixels of a 32-bit BGRX bitmap.
pub open spec fn opaque_rgba_from_bgrx(src: Seq<u8>) -> Seq<u8> {
    Seq::new((src.len() / 4 * 4) as nat, |i: int|
        if i % 4 == 3 { 255u8 } else { src[(i / 4) * 4 + bgra_channel_for_rgba(i % 4)] })
}

/// Read BGRX pixels and convert them to RGBA with full alpha.
pub fn bgrx_to_opaque_rgba(src: &[u8]) -> (r: Vec<u8>)
    ensures
        r@ == opaque_rgba_from_bgrx(src@),
{
    let n = src.len() / 4;
    let ghost target = opaque_rgba_from_bgrx(src@);
    let mut rgba: Vec<u8> = Vec::new();
    let mut p: usize = 0;
    while p < n
        invariant
            n == src.len() / 4,
            p <= n,
            target == opaque_rgba_from_bgrx(src@),
            rgba@ =~= target.take(p * 4),
        decreases n - p,
    {
        let base = p * 4;
        rgba.push(src[base + 2]); // R
        rgba.push(src[base + 1]); // G
        rgba.push(src[base]); // B
        rgba.push(255); // A
        proof {
            assert forall|k: int| 0 <= k < 4 implies #[trigger] target[p * 4 + k] == rgba@[p * 4 + k] by {
                lemma_grid_index(0, p as int, n as int + 1, k, 4);
                assert((p * 4 + k) / 4 == p);
                assert((p * 4 + k) % 4 == k);
            }
            assert(rgba@ =~= target.take((p + 1) * 4));
        }
        p = p + 1;
    }
    rgba
}

/// What the overlay paints over the dimmed screenshot.
#[derive(Debug, Clone, PartialEq, Eq)]
pub enum OverlayPaint {
    /// The dimmed screenshot alone.
    Dimmed,
    /// The selected rectangle shown undimmed with a border, and its size as
    /// a label at (`label_x`, `label_y`).
    Selection { left: i32, top: i32, right: i32, bottom: i32, label: String, label_x: i32, label_y: i32 },
    /// The instructions, centred in this band.
    Instructions { left: i32, top: i32, right: i32, bottom: i32 },
}

impl SelectionState {
    /// How the overlay is painted in this state: the selection while a drag
    /// spans a non-empty rectangle, nothing over the dimmed screenshot for an
    /// empty drag, and the instructions in a band across the middle of the
    /// screen otherwise. (A `String` cannot be made in a spec, so the label's
    /// text is left open here; `paint_plan` states it.)
    pub open spec fn spec_paint_plan(self) -> OverlayPaint {
        if self.dragging {
            let r = span(self.start_x as int, self.start_y as int, self.current_x as int, self.current_y as int);
            if r.width > 0 && r.height > 0 {
                OverlayPaint::Selection {
                    left: r.left,
                    top: r.top,
                    right: (r.left + r.width) as i32,
                    bottom: (r.top + r.height) as i32,
                    label: arbitrary(),
                    label_x: (r.left + 4) as i32,
                    label_y: max_i(r.top - 20, 0) as i32,
                }
            } else {
                OverlayPaint::Dimmed
            }
        } else {
            OverlayPaint::Instructions {
                left: 0,
                top: (self.screen_h / 2 - 20) as i32,
                right: self.screen_w,
                bottom: (self.screen_h / 2 + 20) as i32,
            }
        }
    }

    /// Lay out what to paint over the dimmed screenshot.
    pub fn paint_plan(&self) -> (p: OverlayPaint)
        requires
            self.wf(),
        ensures
            match (p, self.spec_paint_plan()) {
                (
                    OverlayPaint::Selection { left, top, right, bottom, label, label_x, label_y },
                    OverlayPaint::Selection { left: l2, top: t2, right: r2, bottom: b2, label_x: x2, label_y: y2, .. },
                ) => left == l2 && top == t2 && right == r2 && bottom == b2 && label_x == x2 && label_y == y2
                    && label@ == size_label((right - left) as nat, (bottom - top) as nat),
                (a, b) => a == b,
            },
    {
        if self.dragging {
            let left = if self.start_x <= self.current_x { self.start_x } else { self.current_x };
            let top = if self.start_y <= self.current_y { self.start_y } else { self.current_y };
            let right = if self.start_x >= self.current_x { self.start_x } else { self.current_x };
            let bottom = if self.start_y >= self.current_y { self.start_y } else { self.current_y };
            let sel_w = right - left;
            let sel_h = bottom - top;
            if sel_w > 0 && sel_h > 0 {
                let label = format_size(sel_w as u64, sel_h as u64);
                let label_y = if top - 20 >= 0 { top - 20 } else { 0 };
                OverlayPaint::Selection { left, top, right, bottom, label, label_x: left + 4, label_y }
            } else {
                OverlayPaint::Dimmed
            }
        } else {
            OverlayPaint::Instructions {
                left: 0,
                top: self.screen_h / 2 - 20,
                right: self.screen_w,
                bottom: self.screen_h / 2 + 20,
            }
        }
    }
}

/// Once the user cancels, no later message brings a selection back.
pub proof fn lemma_cancel_is_final(s: SelectionState, e: SelectionEvent)
    requires
        s.cancelled,
    ensures
        s.spec_step(e).0.cancelled,
        s.spec_step(e).0.spec_outcome() is None,
{
}

/// Releasing the button after a drag selects the rectangle between the
/// press and the release, provided it is at least 4 by 4; a smaller drag
/// selects nothing and the user may drag again.
pub proof fn lemma_release_selects_drag(s: SelectionState, x: i32, y: i32)
    requires
        s.dragging,
        !s.cancelled,
    ensures
        ({
            let rect = span(s.start_x as int, s.start_y as int, x as int, y as int);
            let (t, a) = s.spec_step(SelectionEvent::LeftButtonUp { x, y });
            &&& !t.dragging
            &&& (rect.width >= 4 && rect.height >= 4) ==> (t.spec_outcome() == Some(rect)
                && a == SelectionAction::Finish { rect, capture_pixels: s.capture_on_select })
            &&& !(rect.width >= 4 && rect.height >= 4) ==> (t.selected == s.selected
                && a == SelectionAction::ReleaseAndRedraw)
        }),
{
}

/// Every message keeps the state well formed, so a selected rectangle is
/// always at least 4 by 4.
pub proof fn lemma_step_keeps_wf(s: SelectionState, e: SelectionEvent)
    requires
        s.wf(),
        event_in_range(e),
    ensures
        s.spec_step(e).0.wf(),
        s.spec_step(e).0.spec_outcome() matches Some(r) ==> r.width >= 4 && r.height >= 4,
{
}

/// The coordinates that `lparam_xy` decodes are those a mouse message packs
/// into its low and high words.
pub proof fn lemma_lparam_round_trip(x: i16, y: i16, lparam: isize)
    requires
        lparam == ((((y as u16) as isize) << 16) | ((x as u16) as isize)),
    ensures
        signed_word((lparam & 0xFFFF) as int) == x,
        signed_word(((lparam >> 16) & 0xFFFF) as int) == y,
{
    let lo = lparam & 0xFFFF;
    let hi = (lparam >> 16) & 0xFFFF;
    assert(lo == (x as u16) as isize) by (bit_vector)
        requires lparam == ((((y as u16) as isize) << 16) | ((x as u16) as isize)), lo == lparam & 0xFFFF;
    assert(hi == (y as u16) as isize) by (bit_vector)
        requires lparam == ((((y as u16) as isize) << 16) | ((x as u16) as isize)), hi == (lparam >> 16) & 0xFFFF;
    assert(x >= 0 ==> (x as u16) as int == x) by (bit_vector);
    assert(x < 0 ==> (x as u16) as int == x + 0x10000) by (bit_vector);
    assert(y >= 0 ==> (y as u16) as int == y) by (bit_vector);
    assert(y < 0 ==> (y as u16) as int == y + 0x10000) by (bit_vector);
}

/// Esc and a right click cancel from every state, mid-drag too: the state
/// is marked cancelled, nothing else in it changes, and the overlay is told
/// to close.
pub proof fn lemma_escape_always_cancels(s: SelectionState)
    ensures
        s.spec_step(SelectionEvent::KeyDown { key: VK_ESCAPE }).0 == (SelectionState { cancelled: true, ..s }),
        s.spec_step(SelectionEvent::KeyDown { key: VK_ESCAPE }).1 == SelectionAction::Cancel,
        s.spec_step(SelectionEvent::KeyDown { key: VK_ESCAPE }).0.spec_outcome() is None,
        s.spec_step(SelectionEvent::RightButtonDown).0 == (SelectionState { cancelled: true, ..s }),
        s.spec_step(SelectionEvent::RightButtonDown).1 == SelectionAction::Cancel,
{
}

} // verus!
