//! The decisions of the capture session: which formats are still images,
//! what a finished selection changes, how saved files are named, what the
//! status line says, and how the encoder's progress is reported.

use vstd::prelude::*;
use crate::region::CaptureRegion;
use crate::selection::SelectionResult;
use crate::text::{chars_of, decimal, size_label, string_of, vec_append, vec_decimal, format_size};

verus! {

/// How a capture is exported.
#[derive(Debug, Clone, Copy, PartialEq, Eq, Structural)]
pub enum ExportFormat {
    Png,
    WebP,
    Mp4,
    Gif,
}

impl ExportFormat {
    /// Whether the format holds a still image (PNG, WebP) rather than a video.
    pub open spec fn spec_is_still(self) -> bool {
        self is Png || self is WebP
    }

    /// Whether the format holds a still image.
    pub fn is_still(self) -> (r: bool)
        ensures
            r == self.spec_is_still(),
    {
        matches!(self, ExportFormat::Png | ExportFormat::WebP)
    }

    /// The file extension of the format.
    pub open spec fn spec_extension(self) -> Seq<char> {
        match self {
            ExportFormat::Png => "png"@,
            ExportFormat::WebP => "webp"@,
            ExportFormat::Mp4 => "mp4"@,
            ExportFormat::Gif => "gif"@,
        }
    }

    /// The file extension of the format.
    pub fn extension(self) -> (r: String)
        ensures
            r@ == self.spec_extension(),
    {
        match self {
            ExportFormat::Png => String::from_str("png"),
            ExportFormat::WebP => String::from_str("webp"),
            ExportFormat::Mp4 => String::from_str("mp4"),
            ExportFormat::Gif => String::from_str("gif"),
        }
    }
}

/// Whether the selection overlay also takes the selected pixels: with the
/// capture-on-select option, for still formats only.
pub fn captures_on_select(capture_on_select: bool, format: ExportFormat) -> (r: bool)
    ensures
        r == (capture_on_select && format.spec_is_still()),
{
    capture_on_select && format.is_still()
}

/// A timestamp for file names: the seconds since the Unix epoch, in decimal.
pub fn simple_timestamp(unix_secs: u64) -> (r: String)
    ensures
        r@ == decimal(unix_secs as nat),
{
    string_of(&vec_decimal(unix_secs))
}

/// The name of a saved capture: "capture_{timestamp}.{extension}".
pub open spec fn spec_capture_file_name(timestamp: Seq<char>, format: ExportFormat) -> Seq<char> {
    "capture_"@ + timestamp + "."@ + format.spec_extension()
}

/// The file name a capture is saved under.
pub fn capture_file_name(timestamp: &str, format: ExportFormat) -> (r: String)
    ensures
        r@ == spec_capture_file_name(timestamp@, format),
{
    let mut s = chars_of("capture_");
    vec_append(&mut s, &chars_of(timestamp));
    vec_append(&mut s, &chars_of("."));
    vec_append(&mut s, &chars_of(format.extension().as_str()));
    string_of(&s)
}

pub open spec fn max_i32(a: i32, b: i32) -> i32 {
    if a >= b { a } else { b }
}

/// What a closed selection overlay leads to.
#[derive(Debug, Clone, Copy, PartialEq, Eq, Structural)]
pub enum AfterSelection {
    /// The selection was cancelled; nothing changes.
    Cancelled,
    /// The selected pixels were taken: they go to the clipboard as an image
    /// of this size, and the capture region goes back to the full screen.
    Captured { width: u32, height: u32 },
    /// The capture region becomes the selection and the border shows it.
    RegionChosen { region: CaptureRegion },
}

/// What the session does with the overlay's result. Negative coordinates
/// count as 0, and a side shorter than 2 as 2.
pub open spec fn spec_after_selection(sel: Option<SelectionResult>) -> AfterSelection {
    match sel {
        None => AfterSelection::Cancelled,
        Some(s) => {
            let x = max_i32(s.x, 0) as u32;
            let y = max_i32(s.y, 0) as u32;
            let w = max_i32(s.width, 2) as u32;
            let h = max_i32(s.height, 2) as u32;
            if s.rgba_data is Some {
                AfterSelection::Captured { width: w, height: h }
            } else {
                AfterSelection::RegionChosen { region: CaptureRegion { x, y, width: w, height: h } }
            }
        },
    }
}

/// Decide what a finished selection changes.
pub fn after_selection(sel: &Option<SelectionResult>) -> (r: AfterSelection)
    ensures
        r == spec_after_selection(*sel),
{
    match sel {
        None => AfterSelection::Cancelled,
        Some(s) => {
            let x = if s.x >= 0 { s.x as u32 } else { 0 };
            let y = if s.y >= 0 { s.y as u32 } else { 0 };
            let w = if s.width >= 2 { s.width as u32 } else { 2 };
            let h = if s.height >= 2 { s.height as u32 } else { 2 };
            if s.rgba_data.is_some() {
                AfterSelection::Captured { width: w, height: h }
            } else {
                AfterSelection::RegionChosen { region: CaptureRegion { x, y, width: w, height: h } }
            }
        },
    }
}

/// "クリップボードに「収納」しました ({w}x{h})"
pub open spec fn captured_message(w: nat, h: nat) -> Seq<char> {
    "クリップボードに「収納」しました ("@ + size_label(w, h) + ")"@
}

/// The status after an image of the given size went to the clipboard.
pub fn captured_status(width: u32, height: u32) -> (r: String)
    ensures
        r@ == captured_message(width as nat, height as nat),
{
    let mut s = chars_of("クリップボードに「収納」しました (");
    vec_append(&mut s, &chars_of(format_size(width as u64, height as u64).as_str()));
    vec_append(&mut s, &chars_of(")"));
    string_of(&s)
}

/// The status line after a selection.
pub open spec fn selection_message(a: AfterSelection) -> Seq<char> {
    match a {
        AfterSelection::Cancelled => "構えをキャンセルしました"@,
        AfterSelection::Captured { width, height } => captured_message(width as nat, height as nat),
        AfterSelection::RegionChosen { region } =>
            "構え完了: "@ + size_label(region.width as nat, region.height as nat) + " @ ("@
                + decimal(region.x as nat) + ", "@ + decimal(region.y as nat) + ")"@,
    }
}

/// The status line after a selection.
pub fn selection_status(a: &AfterSelection) -> (r: String)
    ensures
        r@ == selection_message(*a),
{
    match a {
        AfterSelection::Cancelled => String::from_str("構えをキャンセルしました"),
        AfterSelection::Captured { width, height } => captured_status(*width, *height),
        AfterSelection::RegionChosen { region } => {
            let mut s = chars_of("構え完了: ");
            vec_append(&mut s, &chars_of(format_size(region.width as u64, region.height as u64).as_str()));
            vec_append(&mut s, &chars_of(" @ ("));
            vec_append(&mut s, &vec_decimal(region.x as u64));
            vec_append(&mut s, &chars_of(", "));
            vec_append(&mut s, &vec_decimal(region.y as u64));
            vec_append(&mut s, &chars_of(")"));
            string_of(&s)
        },
    }
}

/// Delay before another attempt after the screen capturer failed to start.
pub const CAPTURER_RETRY_DELAY_MS: u64 = 300;
/// Delay before the screen capturer is started again after the selection
/// overlay closed.
pub const CAPTURER_REINIT_DELAY_MS: u64 = 600;

/// What to do about the screen capturer before capturing.
#[derive(Debug, Clone, Copy, PartialEq, Eq, Structural)]
pub enum CapturerCheck {
    /// A capturer is running.
    Ready,
    /// The time set for the next start has not come yet.
    Wait,
    /// Start a capturer now (and clear the time set for it).
    Start,
}

/// Decide whether to use, wait for, or start the screen capturer, given
/// whether one runs, the time (if any) before which it must not be started,
/// and the time now.
pub fn check_capturer(has_capturer: bool, start_after_ms: Option<u64>, now_ms: u64) -> (r: CapturerCheck)
    ensures
        r == (if has_capturer {
            CapturerCheck::Ready
        } else if start_after_ms matches Some(after) && now_ms < after {
            CapturerCheck::Wait
        } else {
            CapturerCheck::Start
        }),
{
    if has_capturer {
        return CapturerCheck::Ready;
    }
    if let Some(after) = start_after_ms {
        if now_ms < after {
            return CapturerCheck::Wait;
        }
    }
    CapturerCheck::Start
}

/// How many times a still capture asks for a frame before it gives up.
pub const STILL_CAPTURE_ATTEMPTS: u32 = 3;

/// What asking the capturer for a frame gave.
#[derive(Debug, Clone, Copy, PartialEq, Eq, Structural)]
pub enum FrameOutcome {
    /// A new frame.
    Frame,
    /// No new frame yet.
    NoFrame,
    /// The capturer failed.
    Failed,
}

/// What a still capture does after an attempt.
#[derive(Debug, Clone, Copy, PartialEq, Eq, Structural)]
pub enum StillCaptureStep {
    /// Use the frame.
    Use,
    /// Ask for a frame again.
    Retry,
    /// Drop the capturer and start it again later; the status says it is
    /// getting ready.
    Restart,
    /// Stop: no frame came; the status says the capture failed.
    GiveUp,
}

/// Decide what a still capture does after its `attempts`-th request for a
/// frame gave `outcome`: a frame is used, a failure restarts the capturer,
/// and a missing frame is asked for again up to `STILL_CAPTURE_ATTEMPTS` times.
pub fn still_capture_step(attempts: u32, outcome: FrameOutcome) -> (r: StillCaptureStep)
    ensures
        r == (match outcome {
            FrameOutcome::Frame => StillCaptureStep::Use,
            FrameOutcome::Failed => StillCaptureStep::Restart,
            FrameOutcome::NoFrame => if attempts < STILL_CAPTURE_ATTEMPTS {
                StillCaptureStep::Retry
            } else {
                StillCaptureStep::GiveUp
            },
        }),
{
    match outcome {
        FrameOutcome::Frame => StillCaptureStep::Use,
        FrameOutcome::Failed => StillCaptureStep::Restart,
        FrameOutcome::NoFrame => {
            if attempts < STILL_CAPTURE_ATTEMPTS {
                StillCaptureStep::Retry
            } else {
                StillCaptureStep::GiveUp
            }
        },
    }
}

/// Whether a recorded frame is kept: frames below 2 by 2 cannot be encoded.
pub fn keeps_recorded_frame(width: u32, height: u32) -> (r: bool)
    ensures
        r == (width >= 2 && height >= 2),
{
    width >= 2 && height >= 2
}

/// The status of the background encoder.
#[derive(Debug, Clone, PartialEq, Eq)]
pub enum EncodeStatus {
    Idle,
    Encoding(String),
    Done(String),
    Error(String),
}

/// What a look at the encoder's status gives: the status line to show, if it
/// changes, and whether to look again soon.
pub struct StatusPoll {
    pub message: Option<String>,
    pub poll_again_soon: bool,
}

/// The encoder's status after it was looked at: a finished or failed encode
/// is reported once, then the encoder counts as idle.
pub open spec fn spec_status_after_poll(s: EncodeStatus) -> EncodeStatus {
    match s {
        EncodeStatus::Done(_) | EncodeStatus::Error(_) => EncodeStatus::Idle,
        _ => s,
    }
}

/// Look at the encoder's status: a finished or failed encode gives its
/// message once and clears the status; an encode under way gives its
/// progress message and asks to look again soon.
pub fn poll_encode_status(status: &mut EncodeStatus) -> (r: StatusPoll)
    ensures
        *final(status) == spec_status_after_poll(*old(status)),
        match *old(status) {
            EncodeStatus::Idle => r.message is None && !r.poll_again_soon,
            EncodeStatus::Encoding(m) => r.message matches Some(x) && x@ == m@ && r.poll_again_soon,
            EncodeStatus::Done(m) => r.message matches Some(x) && x@ == m@ && !r.poll_again_soon,
            EncodeStatus::Error(m) => r.message matches Some(x) && x@ == m@ && !r.poll_again_soon,
        },
{
    let (message, finished, poll_again_soon) = match &*status {
        EncodeStatus::Done(msg) => (Some(msg.clone()), true, false),
        EncodeStatus::Error(msg) => (Some(msg.clone()), true, false),
        EncodeStatus::Encoding(msg) => (Some(msg.clone()), false, true),
        EncodeStatus::Idle => (None, false, false),
    };
    if finished {
        *status = EncodeStatus::Idle;
    }
    StatusPoll { message, poll_again_soon }
}

/// "収納中... ({n}フレーム)"
pub open spec fn encoding_message(frames: nat) -> Seq<char> {
    "収納中... ("@ + decimal(frames) + "フレーム)"@
}

/// The progress message while `frames` frames are encoded.
pub fn encoding_status(frames: u64) -> (r: String)
    ensures
        r@ == encoding_message(frames as nat),
{
    let mut s = chars_of("収納中... (");
    vec_append(&mut s, &vec_decimal(frames));
    vec_append(&mut s, &chars_of("フレーム)"));
    string_of(&s)
}

/// What stopping a recording leads to.
pub enum StopRecording {
    /// Nothing was recorded; the status line says so.
    NothingRecorded { message: String },
    /// The frames are handed to the encoder; the status line shows progress.
    Encode { message: String },
}

/// Decide what stopping a recording of `frame_count` frames does.
pub fn stop_recording_plan(frame_count: usize) -> (r: StopRecording)
    ensures
        frame_count == 0 <==> r is NothingRecorded,
        r matches StopRecording::NothingRecorded { message } ==> message@ == "動画の保存には最低でも 2 フレーム必要だよ"@,
        r matches StopRecording::Encode { message } ==> message@ == encoding_message(frame_count as nat),
{
    if frame_count == 0 {
        StopRecording::NothingRecorded { message: String::from_str("動画の保存には最低でも 2 フレーム必要だよ") }
    } else {
        StopRecording::Encode { message: encoding_status(frame_count as u64) }
    }
}


/// A finished or failed encode is reported once: after a look, the status
/// is idle or still encoding, and looking again reports nothing new.
pub proof fn lemma_encode_result_reported_once(s: EncodeStatus)
    ensures
        !(spec_status_after_poll(s) is Done) && !(spec_status_after_poll(s) is Error),
        spec_status_after_poll(spec_status_after_poll(s)) == spec_status_after_poll(s),
{
}

/// A selection never leaves a capture region or clipboard image narrower
/// or lower than 2 pixels, the least the encoders accept.
pub proof fn lemma_selection_gives_encodable_size(sel: Option<SelectionResult>)
    ensures
        spec_after_selection(sel) matches AfterSelection::Captured { width, height } ==> width >= 2 && height >= 2,
        spec_after_selection(sel) matches AfterSelection::RegionChosen { region } ==> region.width >= 2 && region.height >= 2,
{
}

} // verus!
