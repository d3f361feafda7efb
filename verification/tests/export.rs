use aynime_issen::export::{
    concat_frames, encoding_size, gif_encode_args_for, gif_filter_for, gif_palette_args_for, mp4_encode_args_for,
    next_mp4_crf, rgba_image, ExportError, MP4_FIRST_CRF,
};

#[test]
fn no_frames_is_an_error() {
    assert_eq!(encoding_size(&[]), Err(ExportError::NoFrames));
    assert_eq!(ExportError::NoFrames.message(), "No frames to encode");
}

#[test]
fn tiny_first_frame_is_an_error() {
    let frames = vec![(vec![0u8; 4], 1, 1), (vec![0u8; 16], 2, 2)];
    assert_eq!(encoding_size(&frames), Err(ExportError::FrameTooSmall { width: 1, height: 1 }));
    assert_eq!(
        ExportError::FrameTooSmall { width: 1, height: 5 }.message(),
        "Frame dimensions too small for encoding: 1x5 (minimum 2x2)"
    );
}

#[test]
fn first_frame_gives_encoding_size() {
    let frames = vec![(vec![0u8; 24], 3, 2), (vec![0u8; 16], 2, 2)];
    assert_eq!(encoding_size(&frames), Ok((3, 2)));
}

#[test]
fn frames_are_concatenated_in_order() {
    let frames = vec![(vec![1u8, 2], 1, 1), (vec![], 1, 1), (vec![3u8, 4, 5], 1, 1)];
    assert_eq!(concat_frames(&frames), vec![1, 2, 3, 4, 5]);
    assert!(concat_frames(&[]).is_empty());
}

fn strs(v: &[&str]) -> Vec<String> {
    v.iter().map(|s| s.to_string()).collect()
}

#[test]
fn mp4_arguments() {
    assert_eq!(
        mp4_encode_args_for("raw.bin", 640, 480, 15, "out.mp4", 23),
        strs(&[
            "-y", "-f", "rawvideo", "-pix_fmt", "rgba", "-s", "640x480", "-r", "15", "-i", "raw.bin", "-vf",
            "scale=trunc(iw/2)*2:trunc(ih/2)*2", "-c:v", "libx264", "-pix_fmt", "yuv420p", "-crf", "23",
            "-preset", "medium", "out.mp4",
        ])
    );
}

#[test]
fn mp4_crf_ladder_is_climbed_while_too_large() {
    assert_eq!(MP4_FIRST_CRF, 23);
    let mut crf = MP4_FIRST_CRF;
    let mut tried = vec![crf];
    while let Some(next) = next_mp4_crf(Some(1000), crf, 5000) {
        crf = next;
        tried.push(crf);
    }
    assert_eq!(tried, vec![23, 28, 33, 38, 43, 48]);
}

#[test]
fn mp4_stops_when_small_enough_or_unlimited() {
    assert_eq!(next_mp4_crf(Some(1000), 23, 1000), None);
    assert_eq!(next_mp4_crf(None, 23, 1_000_000), None);
    assert_eq!(next_mp4_crf(Some(10), 33, 11), Some(38));
    assert_eq!(next_mp4_crf(Some(10), 30, 11), None);
}

#[test]
fn gif_filters() {
    assert_eq!(gif_filter_for(None), "[0:v][1:v] paletteuse=dither=bayer");
    assert_eq!(
        gif_filter_for(Some((577, 433))),
        "scale=576:432:flags=lanczos [scaled]; [scaled][1:v] paletteuse=dither=bayer"
    );
}

#[test]
fn gif_arguments() {
    assert_eq!(
        gif_palette_args_for("raw", 640, 480, 15, "pal.png"),
        strs(&[
            "-f", "rawvideo", "-pix_fmt", "rgba", "-s", "640x480", "-r", "15", "-i", "raw", "-vf",
            "palettegen=stats_mode=diff", "-y", "pal.png",
        ])
    );
    assert_eq!(
        gif_encode_args_for("raw", 640, 480, 10, "pal.png", None, "out.gif"),
        strs(&[
            "-f", "rawvideo", "-pix_fmt", "rgba", "-s", "640x480", "-r", "10", "-i", "raw", "-i", "pal.png",
            "-lavfi", "[0:v][1:v] paletteuse=dither=bayer", "-y", "out.gif",
        ])
    );
}

#[test]
fn rgba_image_needs_enough_bytes() {
    assert!(rgba_image(&[0u8; 16], 2, 2).is_ok());
    assert!(rgba_image(&[0u8; 20], 2, 2).is_ok());
    assert_eq!(rgba_image(&[0u8; 15], 2, 2).err(), Some(ExportError::ImageBufferTooSmall));
    let data: Vec<u8> = (0u8..16).collect();
    let img = rgba_image(&data, 2, 2).unwrap();
    assert_eq!(img.buffer.dimensions(), (2, 2));
    assert_eq!(img.buffer.as_raw(), &data);
    assert_eq!(
        ExportError::ImageBufferTooSmall.message(),
        "Failed to create image buffer from raw data"
    );
}

#[test]
fn joined_stream_holds_whole_frames() {
    let frames: Vec<(Vec<u8>, u32, u32)> = (0..5).map(|i| (vec![i as u8; 2 * 3 * 4], 2, 3)).collect();
    let raw = concat_frames(&frames);
    assert_eq!(raw.len(), 5 * 2 * 3 * 4);
    for (i, chunk) in raw.chunks(24).enumerate() {
        assert!(chunk.iter().all(|&b| b == i as u8));
    }
}
