//! A rectangular capture region and the cropping of a screen frame to it.

use vstd::prelude::*;
use crate::arith::{lemma_grid_index, lemma_grid_bound};
use crate::text::{chars_of, contains, vec_contains};

verus! {

/// Raw screen frame in BGRA format.
pub struct ScreenFrame {
    pub width: u32,
    pub height: u32,
    /// Pixel data in BGRA8 format, row-major.
    pub data: Vec<u8>,
}

impl ScreenFrame {
    /// The frame holds at least four bytes for each of its pixels.
    pub open spec fn wf(&self) -> bool {
        self.data.len() >= self.width * self.height * 4
    }
}

/// A rectangular region on screen.
#[derive(Debug, Clone, Copy, PartialEq, Eq, Structural)]
pub struct CaptureRegion {
    pub x: u32,
    pub y: u32,
    pub width: u32,
    pub height: u32,
}

/// `a - b`, or 0 where `b` exceeds `a`.
pub open spec fn sat_sub(a: int, b: int) -> int {
    if a >= b { a - b } else { 0 }
}

pub open spec fn min(a: int, b: int) -> int {
    if a <= b { a } else { b }
}

/// The channel of a BGRA pixel that lands in channel `k` of an RGBA pixel.
pub open spec fn bgra_channel_for_rgba(k: int) -> int {
    if k == 0 { 2 } else if k == 2 { 0 } else { k }
}

/// The RGBA bytes of the `w` by `h` block at (`x`, `y`) of a BGRA image
/// `fw` pixels wide, row by row.
pub open spec fn crop_bgra_to_rgba(data: Seq<u8>, fw: int, x: int, y: int, w: int, h: int) -> Seq<u8> {
    Seq::new((w * h * 4) as nat, |i: int|
        data[((y + (i / 4) / w) * fw + x + (i / 4) % w) * 4 + bgra_channel_for_rgba(i % 4)])
}

impl CaptureRegion {
    /// The region with the given origin and size.
    pub fn new(x: u32, y: u32, width: u32, height: u32) -> (r: Self)
        ensures
            r == (CaptureRegion { x, y, width, height }),
    {
        Self { x, y, width, height }
    }

    /// The region clamped to a screen of the given size.
    pub open spec fn spec_clamp(self, screen_w: u32, screen_h: u32) -> CaptureRegion {
        let x = min(self.x as int, sat_sub(screen_w as int, 1));
        let y = min(self.y as int, sat_sub(screen_h as int, 1));
        CaptureRegion {
            x: x as u32,
            y: y as u32,
            width: min(self.width as int, screen_w - x) as u32,
            height: min(self.height as int, screen_h - y) as u32,
        }
    }

    /// Clamp the region to fit within the given screen dimensions.
    pub fn clamp_to_screen(&self, screen_w: u32, screen_h: u32) -> (r: Self)
        ensures
            r == self.spec_clamp(screen_w, screen_h),
    {
        let x = if self.x <= screen_w.saturating_sub(1) { self.x } else { screen_w.saturating_sub(1) };
        let y = if self.y <= screen_h.saturating_sub(1) { self.y } else { screen_h.saturating_sub(1) };
        let w = if self.width <= screen_w - x { self.width } else { screen_w - x };
        let h = if self.height <= screen_h - y { self.height } else { screen_h - y };
        Self { x, y, width: w, height: h }
    }

    /// Extract this region from a full screen frame, converting BGRA to RGBA.
    /// Returns (rgba_data, actual_width, actual_height) after clamping to screen bounds.
    pub fn extract_from_frame(&self, frame: &ScreenFrame) -> (r: (Vec<u8>, u32, u32))
        requires
            frame.wf(),
        ensures
            ({
                let c = self.spec_clamp(frame.width, frame.height);
                &&& r.1 == c.width
                &&& r.2 == c.height
                &&& r.0@ == crop_bgra_to_rgba(frame.data@, frame.width as int, c.x as int, c.y as int,
                    c.width as int, c.height as int)
            }),
    {
        let region = self.clamp_to_screen(frame.width, frame.height);
        let ghost spec_out = crop_bgra_to_rgba(frame.data@, frame.width as int, region.x as int,
            region.y as int, region.width as int, region.height as int);
        let fw = frame.width as usize;
        let rw = region.width as usize;
        let mut out: Vec<u8> = Vec::new();
        let mut row: usize = 0;
        while row < region.height as usize
            invariant
                frame.wf(),
                region == self.spec_clamp(frame.width, frame.height),
                fw == frame.width,
                rw == region.width,
                row <= region.height,
                spec_out == crop_bgra_to_rgba(frame.data@, frame.width as int, region.x as int,
                    region.y as int, region.width as int, region.height as int),
                out@ =~= spec_out.take(row * rw * 4),
            decreases region.height - row,
        {
            let src_y = region.y as usize + row;
            let mut col: usize = 0;
            while col < rw
                invariant
                    frame.wf(),
                    region == self.spec_clamp(frame.width, frame.height),
                    fw == frame.width,
                    rw == region.width,
                    row < region.height,
                    src_y == region.y + row,
                    col <= rw,
                    spec_out == crop_bgra_to_rgba(frame.data@, frame.width as int, region.x as int,
                        region.y as int, region.width as int, region.height as int),
                    out@ =~= spec_out.take((row * rw + col) * 4),
                decreases rw - col,
            {
                let sx = region.x as usize + col;
                proof {
                    lemma_grid_bound(src_y as int, sx as int, fw as int, frame.height as int, 3, 4);
                    lemma_grid_bound(row as int, col as int, rw as int, region.height as int, 3, 4);
                }
                let base = (src_y * fw + sx) * 4;
                let ghost before = out@;
                out.push(frame.data[base + 2]);
                out.push(frame.data[base + 1]);
                out.push(frame.data[base]);
                out.push(frame.data[base + 3]);
                proof {
                    let cell = row * rw + col;
                    assert forall|k: int| 0 <= k < 4 implies
                        #[trigger] spec_out[cell * 4 + k] == out@[cell * 4 + k] by {
                        lemma_grid_index(row as int, col as int, rw as int, k, 4);
                        let i = cell * 4 + k;
                        assert(i / 4 == cell);
                        assert(i % 4 == k);
                        assert((i / 4) / (rw as int) == row);
                        assert((i / 4) % (rw as int) == col);
                        assert(spec_out[i] == frame.data@[((src_y as int) * fw + sx) * 4 + bgra_channel_for_rgba(k)]);
                        assert(out@[i] == before.push(frame.data@[base + 2]).push(frame.data@[base + 1])
                            .push(frame.data@[base as int]).push(frame.data@[base + 3])[i]);
                    }
                    assert((row * rw + col + 1) * 4 == cell * 4 + 4) by (nonlinear_arith)
                        requires cell == row * rw + col;
                    assert(cell * 4 + 4 <= spec_out.len()) by (nonlinear_arith)
                        requires cell * 4 + 3 < region.height * rw * 4, spec_out.len() == rw * region.height * 4;
                    assert forall|j: int| 0 <= j < cell * 4 + 4 implies
                        #[trigger] out@[j] == spec_out.take(cell * 4 + 4)[j] by {
                        if j >= cell * 4 {
                            assert(spec_out[cell * 4 + (j - cell * 4)] == out@[cell * 4 + (j - cell * 4)]);
                        }
                    }
                    assert(out@ =~= spec_out.take((row * rw + col + 1) * 4));
                }
                col = col + 1;
            }
            row = row + 1;
            assert(out@ =~= spec_out.take(row * rw * 4)) by {
                assert((row - 1) * rw + rw == row * rw) by (nonlinear_arith);
            }
        }
        proof {
            assert(row * rw * 4 == spec_out.len()) by (nonlinear_arith)
                requires row == region.height, rw == region.width, spec_out.len() == region.width * region.height * 4;
        }
        (out, region.width, region.height)
    }
}


/// The first `row_len` bytes of each of `height` rows that start
/// `row_pitch` bytes apart, one row after another.
pub open spec fn packed_rows(src: Seq<u8>, row_pitch: int, row_len: int, height: int) -> Seq<u8> {
    Seq::new((row_len * height) as nat, |i: int| src[(i / row_len) * row_pitch + i % row_len])
}

/// The screen frame held by a mapped BGRA texture whose rows lie
/// `row_pitch` bytes apart.
pub fn frame_from_mapped_rows(src: &[u8], row_pitch: usize, width: u32, height: u32) -> (r: ScreenFrame)
    requires
        width * 4 <= row_pitch,
        height > 0 ==> (height - 1) * row_pitch + width * 4 <= src.len(),
    ensures
        r.wf(),
        r.data.len() == width * height * 4,
        r.width == width,
        r.height == height,
        r.data@ == packed_rows(src@, row_pitch as int, width * 4, height as int),
{
    let row_len = width as usize * 4;
    let h = height as usize;
    let ghost target = packed_rows(src@, row_pitch as int, row_len as int, h as int);
    let mut data: Vec<u8> = Vec::new();
    let mut y: usize = 0;
    while y < h
        invariant
            row_len == width * 4,
            h == height,
            row_len <= row_pitch,
            h > 0 ==> (h - 1) * row_pitch + row_len <= src.len(),
            target == packed_rows(src@, row_pitch as int, row_len as int, h as int),
            y <= h,
            data@ =~= target.take(y * row_len),
        decreases h - y,
    {
        proof {
            assert(y * row_pitch + row_len <= src.len()) by (nonlinear_arith)
                requires y < h, (h - 1) * row_pitch + row_len <= src.len();
            assert((y + 1) * row_len <= h * row_len) by (nonlinear_arith) requires y < h;
            assert(y * row_len + row_len == (y + 1) * row_len) by (nonlinear_arith);
        }
        let start = y * row_pitch;
        let mut k: usize = 0;
        while k < row_len
            invariant
                row_len <= row_pitch,
                start == y * row_pitch,
                start + row_len <= src.len(),
                target == packed_rows(src@, row_pitch as int, row_len as int, h as int),
                y < h,
                (y + 1) * row_len <= h * row_len,
                y * row_len + row_len == (y + 1) * row_len,
                k <= row_len,
                data@ =~= target.take(y * row_len + k),
            decreases row_len - k,
        {
            data.push(src[start + k]);
            proof {
                let i = y * row_len + k;
                vstd::arithmetic::div_mod::lemma_fundamental_div_mod_converse(i, row_len as int, y as int, k as int);
                assert(i < target.len()) by (nonlinear_arith)
                    requires i == y * row_len + k, k < row_len, (y + 1) * row_len <= h * row_len,
                        y * row_len + row_len == (y + 1) * row_len, target.len() == row_len * h;
                assert(target[i] == src@[start + k]);
                assert(data@ =~= target.take(i + 1));
            }
            k = k + 1;
        }
        y = y + 1;
    }
    proof {
        assert(y * row_len == target.len()) by (nonlinear_arith) requires y == h, target.len() == row_len * h;
        assert(target.take(y * row_len) =~= target);
        assert(data.len() == width * height * 4) by (nonlinear_arith)
            requires data.len() == row_len * h, row_len == width * 4, h == height;
    }
    ScreenFrame { width, height, data }
}

/// Whether a capture error reports that the desktop duplication was lost
/// (`DXGI_ERROR_ACCESS_LOST`, 0x887A0026), by its text.
pub open spec fn spec_is_access_lost(error_text: Seq<char>) -> bool {
    contains(error_text, "ACCESS_LOST"@) || contains(error_text, "0x887A0026"@)
}

/// Decide from an error's text whether the duplication session must be
/// re-created.
pub fn is_access_lost(error_text: &str) -> (r: bool)
    ensures
        r == spec_is_access_lost(error_text@),
{
    let text = chars_of(error_text);
    vec_contains(&text, &chars_of("ACCESS_LOST")) || vec_contains(&text, &chars_of("0x887A0026"))
}


/// A clamped region lies inside a screen that has any pixel at all.
pub proof fn lemma_clamp_within_screen(r: CaptureRegion, screen_w: u32, screen_h: u32)
    requires
        screen_w > 0,
        screen_h > 0,
    ensures
        r.spec_clamp(screen_w, screen_h).x < screen_w,
        r.spec_clamp(screen_w, screen_h).y < screen_h,
        r.spec_clamp(screen_w, screen_h).x + r.spec_clamp(screen_w, screen_h).width <= screen_w,
        r.spec_clamp(screen_w, screen_h).y + r.spec_clamp(screen_w, screen_h).height <= screen_h,
{
}

/// Clamping a clamped region again changes nothing.
pub proof fn lemma_clamp_idempotent(r: CaptureRegion, screen_w: u32, screen_h: u32)
    ensures
        r.spec_clamp(screen_w, screen_h).spec_clamp(screen_w, screen_h) == r.spec_clamp(screen_w, screen_h),
{
}

/// A region that already lies inside the screen is left as it is.
pub proof fn lemma_clamp_keeps_inner_region(r: CaptureRegion, screen_w: u32, screen_h: u32)
    requires
        r.x < screen_w,
        r.y < screen_h,
        r.x + r.width <= screen_w,
        r.y + r.height <= screen_h,
    ensures
        r.spec_clamp(screen_w, screen_h) == r,
{
}

/// Pixel (`col`, `row`) of the cropped image is the BGRA pixel at
/// (`x + col`, `y + row`) of the frame, with red and blue swapped.
pub proof fn lemma_crop_pixel(data: Seq<u8>, fw: int, x: int, y: int, w: int, h: int, col: int, row: int, k: int)
    requires
        0 <= col < w,
        0 <= row < h,
        0 <= k < 4,
    ensures
        crop_bgra_to_rgba(data, fw, x, y, w, h).len() == w * h * 4,
        crop_bgra_to_rgba(data, fw, x, y, w, h)[(row * w + col) * 4 + k]
            == data[((y + row) * fw + x + col) * 4 + bgra_channel_for_rgba(k)],
{
    lemma_grid_index(row, col, w, k, 4);
    lemma_grid_bound(row, col, w, h, k, 4);
    assert(w * h * 4 >= 0) by (nonlinear_arith) requires w > 0, h > 0;
}

/// Clamping crops and never moves: an origin that lies on the screen stays
/// where it is, and the size is cut back to what fits between it and the
/// screen's far edge; an origin past the edge moves to the last pixel.
pub proof fn lemma_clamp_crops_in_place(r: CaptureRegion, screen_w: u32, screen_h: u32)
    ensures
        r.x < screen_w ==> r.spec_clamp(screen_w, screen_h).x == r.x
            && r.spec_clamp(screen_w, screen_h).width
                == (if r.x + r.width <= screen_w { r.width as int } else { screen_w - r.x }),
        r.y < screen_h ==> r.spec_clamp(screen_w, screen_h).y == r.y
            && r.spec_clamp(screen_w, screen_h).height
                == (if r.y + r.height <= screen_h { r.height as int } else { screen_h - r.y }),
        0 < screen_w <= r.x ==> r.spec_clamp(screen_w, screen_h).x == screen_w - 1
            && r.spec_clamp(screen_w, screen_h).width == (if r.width == 0 { 0int } else { 1 }),
        0 < screen_h <= r.y ==> r.spec_clamp(screen_w, screen_h).y == screen_h - 1
            && r.spec_clamp(screen_w, screen_h).height == (if r.height == 0 { 0int } else { 1 }),
{
}

} // verus!
