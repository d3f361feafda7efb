//! The device-independent bitmap (DIB) that is put on the clipboard for an
//! RGBA image: a 40-byte `BITMAPINFOHEADER` and 24-bit BGR rows, bottom row
//! first, each padded to a multiple of four bytes.

use vstd::prelude::*;
use crate::arith::{lemma_grid_index, lemma_grid_bound};
use crate::region::{crop_bgra_to_rgba, lemma_crop_pixel};

verus! {

/// Size of a `BITMAPINFOHEADER` in bytes.
pub const DIB_HEADER_SIZE: u32 = 40;

/// The four little-endian bytes of a 32-bit value.
pub open spec fn le32(v: int) -> Seq<u8> {
    seq![(v % 256) as u8, ((v / 256) % 256) as u8, ((v / 65536) % 256) as u8, ((v / 16777216) % 256) as u8]
}

/// The two little-endian bytes of a 16-bit value.
pub open spec fn le16(v: int) -> Seq<u8> {
    seq![(v % 256) as u8, ((v / 256) % 256) as u8]
}

/// Bytes in one 24-bit row of a bitmap `w` pixels wide, padded to four.
pub open spec fn dib_row_bytes(w: int) -> int {
    (w * 3 + 3) / 4 * 4
}

/// The `BITMAPINFOHEADER` of a bottom-up, uncompressed, 24-bit bitmap:
/// size 40, width, height, one plane, 24 bits per pixel, `BI_RGB`, the size
/// of the pixel data, and zero for the remaining fields.
pub open spec fn dib_header(w: int, h: int) -> Seq<u8> {
    le32(40) + le32(w) + le32(h) + le16(1) + le16(24) + le32(0) + le32(dib_row_bytes(w) * h)
        + Seq::new(16, |i: int| 0u8)
}

/// The pixel rows of the bitmap: row `y` holds image row `h - 1 - y` in BGR
/// order, then zero padding.
pub open spec fn dib_pixels(data: Seq<u8>, w: int, h: int) -> Seq<u8> {
    let rb = dib_row_bytes(w);
    Seq::new((rb * h) as nat, |i: int| {
        let y = i / rb;
        let off = i % rb;
        if off < w * 3 {
            data[((h - 1 - y) * w + off / 3) * 4 + (2 - off % 3)]
        } else {
            0u8
        }
    })
}

/// The whole bitmap: header, then pixel rows.
pub open spec fn dib_bytes(data: Seq<u8>, w: int, h: int) -> Seq<u8> {
    dib_header(w, h) + dib_pixels(data, w, h)
}

fn push_le32(out: &mut Vec<u8>, v: u32)
    ensures
        final(out)@ == old(out)@ + le32(v as int),
{
    out.push((v % 256) as u8);
    out.push(((v / 256) % 256) as u8);
    out.push(((v / 65536) % 256) as u8);
    out.push(((v / 16777216) % 256) as u8);
    assert(final(out)@ =~= old(out)@ + le32(v as int));
}

fn push_le16(out: &mut Vec<u8>, v: u16)
    ensures
        final(out)@ == old(out)@ + le16(v as int),
{
    out.push((v % 256) as u8);
    out.push(((v / 256) % 256) as u8);
    assert(final(out)@ =~= old(out)@ + le16(v as int));
}

/// The bitmap that the clipboard receives for an RGBA image: the header
/// and the pixels, flipped to bottom-up and converted to BGR.
pub fn clipboard_dib(data: &[u8], width: u32, height: u32) -> (r: Vec<u8>)
    requires
        width * 3 + 3 <= u32::MAX,
        dib_row_bytes(width as int) * height <= u32::MAX,
        data.len() >= width * height * 4,
    ensures
        r@ == dib_bytes(data@, width as int, height as int),
{
    // BITMAPINFOHEADER (40 bytes) + pixel data (BGR, bottom-up)
    let unaligned: u32 = width * 3 + 3;
    let row_bytes = unaligned & !3u32; // 24-bit rows aligned to 4 bytes
    assert(row_bytes == unaligned / 4 * 4) by (bit_vector)
        requires row_bytes == unaligned & !3u32;
    let pixel_size = row_bytes * height;
    let mut out: Vec<u8> = Vec::new();
    push_le32(&mut out, DIB_HEADER_SIZE);
    push_le32(&mut out, width);
    push_le32(&mut out, height);
    push_le16(&mut out, 1);
    push_le16(&mut out, 24);
    push_le32(&mut out, 0);
    push_le32(&mut out, pixel_size);
    let mut z: usize = 0;
    while z < 16
        invariant
            z <= 16,
            out@ =~= le32(40) + le32(width as int) + le32(height as int) + le16(1) + le16(24) + le32(0)
                + le32(pixel_size as int) + Seq::new(z as nat, |i: int| 0u8),
        decreases 16 - z,
    {
        out.push(0);
        z = z + 1;
    }
    let ghost header = dib_header(width as int, height as int);
    let ghost pixels = dib_pixels(data@, width as int, height as int);
    assert(out@ =~= header);
    let w = width as usize;
    let h = height as usize;
    let rb = row_bytes as usize;
    let mut y: usize = 0;
    while y < h
        invariant
            w == width,
            h == height,
            rb == dib_row_bytes(w as int),
            rb * h <= u32::MAX,
            w * 3 <= rb,
            data.len() >= w * h * 4,
            header.len() == 40,
            pixels == dib_pixels(data@, w as int, h as int),
            y <= h,
            out@ =~= header + pixels.take(y * rb),
        decreases h - y,
    {
        let src_row = h - 1 - y; // flip
        let mut x: usize = 0;
        proof {
            assert((y + 1) * rb <= rb * h) by (nonlinear_arith) requires y < h;
            assert(y * rb + rb == (y + 1) * rb) by (nonlinear_arith);
        }
        while x < w
            invariant
                w == width,
                h == height,
                rb == dib_row_bytes(w as int),
                rb * h <= u32::MAX,
                w * 3 <= rb,
                data.len() >= w * h * 4,
                header.len() == 40,
                pixels == dib_pixels(data@, w as int, h as int),
                y < h,
                src_row == h - 1 - y,
                (y + 1) * rb <= rb * h,
                y * rb + rb == (y + 1) * rb,
                x <= w,
                out@ =~= header + pixels.take(y * rb + x * 3),
            decreases w - x,
        {
            proof {
                lemma_grid_bound(src_row as int, x as int, w as int, h as int, 3, 4);
            }
            let src_idx = (src_row * w + x) * 4;
            out.push(data[src_idx + 2]); // B
            out.push(data[src_idx + 1]); // G
            out.push(data[src_idx]); // R
            proof {
                assert forall|c: int| 0 <= c < 3 implies
                    #[trigger] pixels[y * rb + x * 3 + c] == data@[src_idx + (2 - c)] by {
                    let i = y * rb + x * 3 + c;
                    lemma_grid_index(y as int, x * 3 + c, rb as int, 0, 1);
                    assert(i / (rb as int) == y && i % (rb as int) == x * 3 + c) by {
                        vstd::arithmetic::div_mod::lemma_fundamental_div_mod_converse(i, rb as int, y as int, x * 3 + c);
                    }
                    lemma_grid_index(0, x as int, w as int + 1, c, 3);
                    assert((x * 3 + c) / 3 == x && (x * 3 + c) % 3 == c);
                    assert(i < rb * h) by (nonlinear_arith)
                        requires i == y * rb + x * 3 + c, x * 3 + c < rb, (y + 1) * rb <= rb * h, y * rb + rb == (y + 1) * rb;
                }
                let base = y * rb + x * 3;
                assert(y * rb + (x + 1) * 3 == base + 3);
                assert(base + 3 <= pixels.len()) by (nonlinear_arith)
                    requires base == y * rb + x * 3, x * 3 + 3 <= rb, (y + 1) * rb <= rb * h,
                        y * rb + rb == (y + 1) * rb, pixels.len() == rb * h;
                assert forall|j: int| 0 <= j < 40 + base + 3 implies
                    #[trigger] out@[j] == (header + pixels.take(base + 3))[j] by {
                    if j >= 40 + base {
                        assert(pixels[base + (j - 40 - base)] == data@[src_idx + (2 - (j - 40 - base))]);
                    }
                }
                assert(out@ =~= header + pixels.take(y * rb + (x + 1) * 3));
            }
            x = x + 1;
        }
        let mut p = w * 3;
        while p < rb
            invariant
                rb == dib_row_bytes(w as int),
                w * 3 <= p <= rb,
                header.len() == 40,
                pixels == dib_pixels(data@, w as int, h as int),
                (y + 1) * rb <= rb * h,
                y * rb + rb == (y + 1) * rb,
                out@ =~= header + pixels.take(y * rb + p),
            decreases rb - p,
        {
            out.push(0);
            proof {
                let i = y * rb + p;
                assert(i / (rb as int) == y && i % (rb as int) == p) by {
                    vstd::arithmetic::div_mod::lemma_fundamental_div_mod_converse(i, rb as int, y as int, p as int);
                }
                assert(pixels[i] == 0u8);
                assert(out@ =~= header + pixels.take(y * rb + p + 1));
            }
            p = p + 1;
        }
        y = y + 1;
    }
    proof {
        assert(y * rb == pixels.len()) by (nonlinear_arith) requires y == h, pixels.len() == rb * h;
        assert(pixels.take(y * rb) =~= pixels);
    }
    out
}


/// The bitmap is the 40-byte header followed by rows padded to a multiple of
/// four bytes that hold at least three bytes per pixel.
pub proof fn lemma_dib_size(data: Seq<u8>, w: int, h: int)
    requires
        w >= 0,
        h >= 0,
    ensures
        dib_bytes(data, w, h).len() == 40 + dib_row_bytes(w) * h,
        dib_row_bytes(w) % 4 == 0,
        w * 3 <= dib_row_bytes(w) < w * 3 + 4,
{
    assert(dib_row_bytes(w) * h >= 0) by (nonlinear_arith) requires dib_row_bytes(w) >= 0, h >= 0;
}

/// Pixel (`x`, `y`) of the image, counted from the top, is found in row
/// `h - 1 - y` of the bitmap in blue, green, red order.
pub proof fn lemma_dib_pixel(data: Seq<u8>, w: int, h: int, x: int, y: int, c: int)
    requires
        0 <= x < w,
        0 <= y < h,
        0 <= c < 3,
    ensures
        dib_bytes(data, w, h)[40 + (h - 1 - y) * dib_row_bytes(w) + x * 3 + c]
            == data[(y * w + x) * 4 + (2 - c)],
{
    let rb = dib_row_bytes(w);
    let row = h - 1 - y;
    let i = row * rb + x * 3 + c;
    assert(x * 3 + c < rb);
    vstd::arithmetic::div_mod::lemma_fundamental_div_mod_converse(i, rb, row, x * 3 + c);
    lemma_grid_index(0, x, w + 1, c, 3);
    assert((x * 3 + c) / 3 == x && (x * 3 + c) % 3 == c);
    assert(i < rb * h) by (nonlinear_arith)
        requires i == row * rb + x * 3 + c, 0 <= x * 3 + c < rb, 0 <= row < h;
    assert(dib_header(w, h).len() == 40);
    assert(dib_bytes(data, w, h)[40 + i] == dib_pixels(data, w, h)[i]);
    assert(h - 1 - row == y);
}


/// A region cropped from a BGRA screen frame and put on the clipboard keeps
/// the screen's pixels: the bitmap's blue, green and red bytes of pixel
/// (`x`, `y`) of the region are those of the frame at (`rx + x`, `ry + y`).
pub proof fn lemma_clipboard_holds_screen_pixels(
    frame: Seq<u8>,
    fw: int,
    rx: int,
    ry: int,
    rw: int,
    rh: int,
    x: int,
    y: int,
    c: int,
)
    requires
        0 <= x < rw,
        0 <= y < rh,
        0 <= c < 3,
    ensures
        dib_bytes(crop_bgra_to_rgba(frame, fw, rx, ry, rw, rh), rw, rh)[40 + (rh - 1 - y) * dib_row_bytes(rw) + x * 3 + c]
            == frame[((ry + y) * fw + rx + x) * 4 + c],
{
    let crop = crop_bgra_to_rgba(frame, fw, rx, ry, rw, rh);
    lemma_dib_pixel(crop, rw, rh, x, y, c);
    lemma_crop_pixel(frame, fw, rx, ry, rw, rh, x, y, 2 - c);
}

/// The number that four little-endian bytes spell.
pub open spec fn le32_value(b: Seq<u8>) -> int {
    b[0] + 256 * b[1] + 65536 * b[2] + 16777216 * b[3]
}

/// Four little-endian bytes of a 32-bit value spell that value.
pub proof fn lemma_le32_value(v: u32)
    ensures
        le32(v as int).len() == 4,
        le32_value(le32(v as int)) == v,
{
    let x = v;
    assert((x % 256) + 256 * ((x / 256) % 256) + 65536 * ((x / 65536) % 256)
        + 16777216 * ((x / 16777216) % 256) == x) by (bit_vector);
}

/// The bitmap's header gives the image's sides the right way round: its
/// width field (bytes 4 to 8) reads as the width and its height field
/// (bytes 8 to 12) as the height.
pub proof fn lemma_dib_header_sides(data: Seq<u8>, w: u32, h: u32)
    ensures
        dib_bytes(data, w as int, h as int).subrange(4, 8) == le32(w as int),
        dib_bytes(data, w as int, h as int).subrange(8, 12) == le32(h as int),
        le32_value(dib_bytes(data, w as int, h as int).subrange(4, 8)) == w,
        le32_value(dib_bytes(data, w as int, h as int).subrange(8, 12)) == h,
{
    let d = dib_bytes(data, w as int, h as int);
    assert(d.subrange(4, 8) =~= le32(w as int));
    assert(d.subrange(8, 12) =~= le32(h as int));
    lemma_le32_value(w);
    lemma_le32_value(h);
}

} // verus!
