//! Planning of still-image and video export: checking the recorded frames,
//! joining them into one raw stream, the FFmpeg command lines, the quality
//! ladder that brings an MP4 under a size limit, and the RGBA image buffer
//! that a still image is saved from.

use vstd::prelude::*;
use crate::text::{chars_of, decimal, format_size, size_label, string_of, string_views, vec_append, vec_decimal};

verus! {

/// An 8-bit RGBA image buffer of the `image` crate, which a still image is
/// saved from. Verus sees nothing of it.
#[verifier::external_body]
pub struct RgbaImage {
    pub buffer: image::RgbaImage,
}

/// Why an export could not be prepared.
#[derive(Debug, Clone, Copy, PartialEq, Eq, Structural)]
pub enum ExportError {
    /// No frames were recorded.
    NoFrames,
    /// The first frame is narrower or lower than 2 pixels.
    FrameTooSmall { width: u32, height: u32 },
    /// The pixel data is shorter than the image size asks for.
    ImageBufferTooSmall,
}

impl ExportError {
    /// The message that describes the error.
    pub open spec fn spec_message(self) -> Seq<char> {
        match self {
            ExportError::NoFrames => "No frames to encode"@,
            ExportError::FrameTooSmall { width, height } =>
                "Frame dimensions too small for encoding: "@ + size_label(width as nat, height as nat)
                    + " (minimum 2x2)"@,
            ExportError::ImageBufferTooSmall => "Failed to create image buffer from raw data"@,
        }
    }

    /// The message that describes the error.
    pub fn message(&self) -> (r: String)
        ensures
            r@ == self.spec_message(),
    {
        match self {
            ExportError::NoFrames => String::from_str("No frames to encode"),
            ExportError::FrameTooSmall { width, height } => {
                let mut s = chars_of("Frame dimensions too small for encoding: ");
                vec_append(&mut s, &chars_of(format_size(*width as u64, *height as u64).as_str()));
                vec_append(&mut s, &chars_of(" (minimum 2x2)"));
                string_of(&s)
            },
            ExportError::ImageBufferTooSmall => String::from_str("Failed to create image buffer from raw data"),
        }
    }
}

/// The bytes that an RGBA image buffer holds, row by row.
pub uninterp spec fn rgba_image_bytes(img: RgbaImage) -> Seq<u8>;

/// The width and height that an RGBA image buffer was made with.
pub uninterp spec fn rgba_image_dimensions(img: RgbaImage) -> (u32, u32);

/// `image::ImageBuffer::from_raw` for 8-bit RGBA pixels: an image over `buf`
/// when `buf` holds at least `4 * width * height` bytes and that count
/// (computed as `(4 * width) * height`) fits in a `usize`; `None` otherwise.
/// The image keeps `buf` as it is, with the given width and height.
#[verifier::external_body]
fn rgba_image_from_raw(width: u32, height: u32, buf: Vec<u8>) -> (r: Option<RgbaImage>)
    ensures
        r is Some <==> (4 * width <= usize::MAX && 4 * width * height <= usize::MAX
            && 4 * width * height <= buf.len()),
        r matches Some(img) ==> rgba_image_bytes(img) == buf@ && rgba_image_dimensions(img) == (width, height),
{
    image::ImageBuffer::from_raw(width, height, buf).map(|buffer| RgbaImage { buffer })
}

/// The RGBA image buffer that a still image is saved from.
pub fn rgba_image(data: &[u8], width: u32, height: u32) -> (r: Result<RgbaImage, ExportError>)
    ensures
        r is Ok <==> (4 * width <= usize::MAX && 4 * width * height <= usize::MAX
            && 4 * width * height <= data.len()),
        r is Err ==> r == Err::<RgbaImage, ExportError>(ExportError::ImageBufferTooSmall),
        r matches Ok(img) ==> rgba_image_bytes(img) == data@ && rgba_image_dimensions(img) == (width, height),
{
    match rgba_image_from_raw(width, height, vstd::slice::slice_to_vec(data)) {
        Some(img) => Ok(img),
        None => Err(ExportError::ImageBufferTooSmall),
    }
}

/// A recorded frame: RGBA bytes, width and height.
pub type Frame = (Vec<u8>, u32, u32);

/// The size that frames are encoded at, or why they cannot be.
pub open spec fn spec_encoding_size(frames: Seq<Frame>) -> Result<(u32, u32), ExportError> {
    if frames.len() == 0 {
        Err(ExportError::NoFrames)
    } else if frames[0].1 < 2 || frames[0].2 < 2 {
        Err(ExportError::FrameTooSmall { width: frames[0].1, height: frames[0].2 })
    } else {
        Ok((frames[0].1, frames[0].2))
    }
}

/// The width and height of the first frame, which the encoder is given for
/// all of them; an error if there is no frame or it is below 2 by 2.
pub fn encoding_size(frames: &[Frame]) -> (r: Result<(u32, u32), ExportError>)
    ensures
        r == spec_encoding_size(frames@),
{
    if frames.len() == 0 {
        return Err(ExportError::NoFrames);
    }
    let width = frames[0].1;
    let height = frames[0].2;
    if width < 2 || height < 2 {
        return Err(ExportError::FrameTooSmall { width, height });
    }
    Ok((width, height))
}

/// The bytes of all frames, one after another.
pub open spec fn frames_bytes(frames: Seq<Frame>) -> Seq<u8>
    decreases frames.len(),
{
    if frames.len() == 0 {
        Seq::empty()
    } else {
        frames_bytes(frames.drop_last()) + frames.last().0@
    }
}

/// Concatenate all RGBA frames into one raw stream.
pub fn concat_frames(frames: &[Frame]) -> (r: Vec<u8>)
    ensures
        r@ == frames_bytes(frames@),
{
    let mut raw_data: Vec<u8> = Vec::new();
    let mut i: usize = 0;
    assert(frames@.take(0) =~= Seq::<Frame>::empty());
    while i < frames.len()
        invariant
            i <= frames.len(),
            raw_data@ == frames_bytes(frames@.take(i as int)),
        decreases frames.len() - i,
    {
        let data = &frames[i].0;
        let mut k: usize = 0;
        let ghost before = raw_data@;
        while k < data.len()
            invariant
                k <= data.len(),
                raw_data@ == before + data@.take(k as int),
            decreases data.len() - k,
        {
            raw_data.push(data[k]);
            assert(data@.take(k + 1) == data@.take(k as int).push(data@[k as int]));
            k = k + 1;
        }
        assert(data@.take(data.len() as int) =~= data@);
        assert(frames@.take(i + 1).drop_last() =~= frames@.take(i as int));
        i = i + 1;
    }
    assert(frames@.take(frames.len() as int) =~= frames@);
    raw_data
}

fn push_arg(args: &mut Vec<String>, s: &str)
    ensures
        string_views(final(args)@) == string_views(old(args)@).push(s@),
{
    args.push(String::from_str(s));
    assert(string_views(final(args)@) =~= string_views(old(args)@).push(s@));
}

fn push_owned_arg(args: &mut Vec<String>, s: String)
    ensures
        string_views(final(args)@) == string_views(old(args)@).push(s@),
{
    let ghost v = s@;
    args.push(s);
    assert(string_views(final(args)@) =~= string_views(old(args)@).push(v));
}

fn decimal_string(n: u64) -> (r: String)
    ensures
        r@ == decimal(n as nat),
{
    string_of(&vec_decimal(n))
}

/// FFmpeg's input options for raw RGBA frames of the given size and rate.
pub open spec fn raw_input_args(raw: Seq<char>, w: nat, h: nat, fps: nat) -> Seq<Seq<char>> {
    seq!["-f"@, "rawvideo"@, "-pix_fmt"@, "rgba"@, "-s"@, size_label(w, h), "-r"@, decimal(fps), "-i"@, raw]
}

/// The arguments for encoding raw frames to H.264 MP4 at the given CRF,
/// scaled to even dimensions as libx264 needs.
pub open spec fn mp4_encode_args(raw: Seq<char>, w: nat, h: nat, fps: nat, out: Seq<char>, crf: nat) -> Seq<Seq<char>> {
    seq!["-y"@] + raw_input_args(raw, w, h, fps) + seq![
        "-vf"@, "scale=trunc(iw/2)*2:trunc(ih/2)*2"@,
        "-c:v"@, "libx264"@,
        "-pix_fmt"@, "yuv420p"@,
        "-crf"@, decimal(crf),
        "-preset"@, "medium"@,
        out,
    ]
}

fn push_raw_input_args(args: &mut Vec<String>, raw_input: &str, width: u32, height: u32, fps: u32)
    ensures
        string_views(final(args)@) == string_views(old(args)@) + raw_input_args(raw_input@, width as nat, height as nat, fps as nat),
{
    push_arg(args, "-f");
    push_arg(args, "rawvideo");
    push_arg(args, "-pix_fmt");
    push_arg(args, "rgba");
    push_arg(args, "-s");
    push_owned_arg(args, format_size(width as u64, height as u64));
    push_arg(args, "-r");
    push_owned_arg(args, decimal_string(fps as u64));
    push_arg(args, "-i");
    push_arg(args, raw_input);
    assert(string_views(final(args)@) =~= string_views(old(args)@) + raw_input_args(raw_input@, width as nat, height as nat, fps as nat));
}

/// The FFmpeg arguments that encode the raw frames in `raw_input` into an
/// MP4 at `output` with the given CRF.
pub fn mp4_encode_args_for(raw_input: &str, width: u32, height: u32, fps: u32, output: &str, crf: u32) -> (r: Vec<String>)
    ensures
        string_views(r@) == mp4_encode_args(raw_input@, width as nat, height as nat, fps as nat, output@, crf as nat),
{
    let mut args: Vec<String> = Vec::new();
    push_arg(&mut args, "-y");
    push_raw_input_args(&mut args, raw_input, width, height, fps);
    // Scale to even dimensions (libx264 requires width/height divisible by 2)
    push_arg(&mut args, "-vf");
    push_arg(&mut args, "scale=trunc(iw/2)*2:trunc(ih/2)*2");
    push_arg(&mut args, "-c:v");
    push_arg(&mut args, "libx264");
    push_arg(&mut args, "-pix_fmt");
    push_arg(&mut args, "yuv420p");
    push_arg(&mut args, "-crf");
    push_owned_arg(&mut args, decimal_string(crf as u64));
    push_arg(&mut args, "-preset");
    push_arg(&mut args, "medium");
    push_arg(&mut args, output);
    assert(string_views(args@) =~= mp4_encode_args(raw_input@, width as nat, height as nat, fps as nat, output@, crf as nat));
    args
}

/// The CRF of the first MP4 encode.
pub const MP4_FIRST_CRF: u32 = 23;

/// The CRFs tried in turn, first to last, while an MP4 exceeds its size limit.
pub open spec fn mp4_crf_ladder() -> Seq<u32> {
    seq![23u32, 28, 33, 38, 43, 48]
}

/// The step of the ladder after `crf`, if `crf` is a step and not the last.
pub open spec fn crf_after(crf: u32) -> Option<u32> {
    if crf == 23 {
        Some(28u32)
    } else if crf == 28 {
        Some(33u32)
    } else if crf == 33 {
        Some(38u32)
    } else if crf == 38 {
        Some(43u32)
    } else if crf == 43 {
        Some(48u32)
    } else {
        None
    }
}

/// The CRF to encode at next, after an encode at `last_crf` gave a file of
/// `last_size` bytes: the next step of the ladder while the file exceeds
/// the limit; none once it fits, when there is no limit, or after the last step.
pub open spec fn spec_next_mp4_crf(max_size: Option<u64>, last_crf: u32, last_size: u64) -> Option<u32> {
    match max_size {
        Some(max) if last_size > max => crf_after(last_crf),
        _ => None,
    }
}

/// Decide whether to encode the MP4 again at a higher CRF.
pub fn next_mp4_crf(max_size: Option<u64>, last_crf: u32, last_size: u64) -> (r: Option<u32>)
    ensures
        r == spec_next_mp4_crf(max_size, last_crf, last_size),
{
    match max_size {
        Some(max) if last_size > max => {
            // Progressively increase CRF until under limit
            if last_crf == 23 {
                Some(28)
            } else if last_crf == 28 {
                Some(33)
            } else if last_crf == 33 {
                Some(38)
            } else if last_crf == 38 {
                Some(43)
            } else if last_crf == 43 {
                Some(48)
            } else {
                None
            }
        },
        _ => None,
    }
}

/// `v` rounded down to an even number.
pub open spec fn even_floor(v: nat) -> nat {
    (v / 2 * 2) as nat
}

/// The filter graph that maps the frames through the palette: scaled (with
/// Lanczos, to even dimensions) when `scaled` gives a size, unscaled otherwise.
pub open spec fn gif_filter(scaled: Option<(u32, u32)>) -> Seq<char> {
    match scaled {
        Some((w, h)) => "scale="@ + decimal(even_floor(w as nat)) + ":"@ + decimal(even_floor(h as nat))
            + ":flags=lanczos [scaled]; [scaled][1:v] paletteuse=dither=bayer"@,
        None => "[0:v][1:v] paletteuse=dither=bayer"@,
    }
}

/// The GIF palette-mapping filter for frames scaled to about `scaled`, or
/// not scaled.
pub fn gif_filter_for(scaled: Option<(u32, u32)>) -> (r: String)
    ensures
        r@ == gif_filter(scaled),
{
    match scaled {
        Some((w, h)) => {
            let ew = w & !1u32; // even number
            let eh = h & !1u32;
            assert(ew == w / 2 * 2) by (bit_vector) requires ew == w & !1u32;
            assert(eh == h / 2 * 2) by (bit_vector) requires eh == h & !1u32;
            let mut s = chars_of("scale=");
            vec_append(&mut s, &vec_decimal(ew as u64));
            vec_append(&mut s, &chars_of(":"));
            vec_append(&mut s, &vec_decimal(eh as u64));
            vec_append(&mut s, &chars_of(":flags=lanczos [scaled]; [scaled][1:v] paletteuse=dither=bayer"));
            string_of(&s)
        },
        None => String::from_str("[0:v][1:v] paletteuse=dither=bayer"),
    }
}

/// The arguments that make FFmpeg compute a palette for the GIF.
pub open spec fn gif_palette_args(raw: Seq<char>, w: nat, h: nat, fps: nat, palette: Seq<char>) -> Seq<Seq<char>> {
    raw_input_args(raw, w, h, fps) + seq!["-vf"@, "palettegen=stats_mode=diff"@, "-y"@, palette]
}

/// The arguments that make FFmpeg encode the GIF through the palette.
pub open spec fn gif_encode_args(raw: Seq<char>, w: nat, h: nat, fps: nat, palette: Seq<char>,
    filter: Seq<char>, out: Seq<char>) -> Seq<Seq<char>> {
    raw_input_args(raw, w, h, fps) + seq!["-i"@, palette, "-lavfi"@, filter, "-y"@, out]
}

/// FFmpeg arguments for generating the GIF palette.
pub fn gif_palette_args_for(raw_input: &str, width: u32, height: u32, fps: u32, palette: &str) -> (r: Vec<String>)
    ensures
        string_views(r@) == gif_palette_args(raw_input@, width as nat, height as nat, fps as nat, palette@),
{
    let mut args: Vec<String> = Vec::new();
    push_raw_input_args(&mut args, raw_input, width, height, fps);
    push_arg(&mut args, "-vf");
    push_arg(&mut args, "palettegen=stats_mode=diff");
    push_arg(&mut args, "-y");
    push_arg(&mut args, palette);
    assert(string_views(args@) =~= gif_palette_args(raw_input@, width as nat, height as nat, fps as nat, palette@));
    args
}

/// FFmpeg arguments for encoding the GIF with its palette.
pub fn gif_encode_args_for(raw_input: &str, width: u32, height: u32, fps: u32, palette: &str,
    scaled: Option<(u32, u32)>, output: &str) -> (r: Vec<String>)
    ensures
        string_views(r@) == gif_encode_args(raw_input@, width as nat, height as nat, fps as nat, palette@,
            gif_filter(scaled), output@),
{
    let mut args: Vec<String> = Vec::new();
    push_raw_input_args(&mut args, raw_input, width, height, fps);
    push_arg(&mut args, "-i");
    push_arg(&mut args, palette);
    push_arg(&mut args, "-lavfi");
    push_owned_arg(&mut args, gif_filter_for(scaled));
    push_arg(&mut args, "-y");
    push_arg(&mut args, output);
    assert(string_views(args@) =~= gif_encode_args(raw_input@, width as nat, height as nat, fps as nat, palette@,
        gif_filter(scaled), output@));
    args
}


/// A retry always raises the CRF to the next step of the ladder, and there
/// is no step after the last: starting from the first CRF, an MP4 is encoded
/// at most as many times as the ladder has steps.
pub proof fn lemma_mp4_retries_climb_ladder(crf: u32, next: u32)
    ensures
        crf_after(crf) == Some(next) ==> next > crf && exists|i: int|
            0 <= i < mp4_crf_ladder().len() - 1 && #[trigger] mp4_crf_ladder()[i] == crf && mp4_crf_ladder()[i + 1] == next,
        crf_after(mp4_crf_ladder().last()) is None,
        mp4_crf_ladder()[0] == MP4_FIRST_CRF,
{
    if crf_after(crf) == Some(next) {
        let l = mp4_crf_ladder();
        if crf == 23 { assert(l[0] == crf && l[1] == next); }
        else if crf == 28 { assert(l[1] == crf && l[2] == next); }
        else if crf == 33 { assert(l[2] == crf && l[3] == next); }
        else if crf == 38 { assert(l[3] == crf && l[4] == next); }
        else { assert(l[4] == crf && l[5] == next); }
    }
}

/// When every frame holds `w * h * 4` bytes, the joined stream holds
/// exactly that many bytes per frame, which is how FFmpeg splits it.
pub proof fn lemma_frames_bytes_len(frames: Seq<Frame>, frame_len: nat)
    requires
        forall|i: int| 0 <= i < frames.len() ==> (#[trigger] frames[i]).0@.len() == frame_len,
    ensures
        frames_bytes(frames).len() == frames.len() * frame_len,
    decreases frames.len(),
{
    if frames.len() > 0 {
        let prefix = frames.drop_last();
        assert forall|i: int| 0 <= i < prefix.len() implies (#[trigger] prefix[i]).0@.len() == frame_len by {
            assert(prefix[i] == frames[i]);
        }
        lemma_frames_bytes_len(prefix, frame_len);
        assert(frames.last() == frames[frames.len() - 1]);
        assert(frames.len() * frame_len == (frames.len() - 1) * frame_len + frame_len) by (nonlinear_arith);
    }
}

/// The MP4 encode runs at the CRF it is asked for: the value after `-crf`
/// is that CRF in decimal, whatever the other arguments.
pub proof fn lemma_mp4_encode_uses_requested_crf(raw: Seq<char>, w: nat, h: nat, fps: nat, out: Seq<char>, crf: nat)
    ensures
        mp4_encode_args(raw, w, h, fps, out, crf)[17] == "-crf"@,
        mp4_encode_args(raw, w, h, fps, out, crf)[18] == decimal(crf),
        mp4_encode_args(raw, w, h, fps, out, crf).len() == 22,
        mp4_encode_args(raw, w, h, fps, out, crf)[10] == raw,
        mp4_encode_args(raw, w, h, fps, out, crf)[21] == out,
{
}

} // verus!
