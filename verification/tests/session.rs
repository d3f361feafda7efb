use aynime_issen::region::CaptureRegion;
use aynime_issen::selection::SelectionResult;
use aynime_issen::session::{check_capturer, still_capture_step, CapturerCheck, FrameOutcome, StillCaptureStep};
use aynime_issen::session::{
    after_selection, capture_file_name, captured_status, captures_on_select, encoding_status,
    keeps_recorded_frame, poll_encode_status, selection_status, simple_timestamp, stop_recording_plan,
    AfterSelection, EncodeStatus, ExportFormat, StopRecording,
};

#[test]
fn still_formats_and_extensions() {
    assert!(ExportFormat::Png.is_still());
    assert!(ExportFormat::WebP.is_still());
    assert!(!ExportFormat::Mp4.is_still());
    assert!(!ExportFormat::Gif.is_still());
    assert_eq!(ExportFormat::WebP.extension(), "webp");
    assert_eq!(ExportFormat::Gif.extension(), "gif");
}

#[test]
fn capture_on_select_only_for_stills() {
    assert!(captures_on_select(true, ExportFormat::Png));
    assert!(!captures_on_select(true, ExportFormat::Mp4));
    assert!(!captures_on_select(false, ExportFormat::WebP));
}

#[test]
fn file_names() {
    assert_eq!(simple_timestamp(1_700_000_000), "1700000000");
    assert_eq!(simple_timestamp(0), "0");
    let ts = simple_timestamp(123);
    assert_eq!(capture_file_name(&ts, ExportFormat::Png), "capture_123.png");
    assert_eq!(capture_file_name(&ts, ExportFormat::Mp4), "capture_123.mp4");
}

fn sel(x: i32, y: i32, w: i32, h: i32, rgba: Option<Vec<u8>>) -> Option<SelectionResult> {
    Some(SelectionResult { x, y, width: w, height: h, rgba_data: rgba })
}

#[test]
fn selection_outcomes_and_messages() {
    let a = after_selection(&None);
    assert_eq!(a, AfterSelection::Cancelled);
    assert_eq!(selection_status(&a), "構えをキャンセルしました");

    let a = after_selection(&sel(-5, 10, 100, 1, None));
    assert_eq!(a, AfterSelection::RegionChosen { region: CaptureRegion::new(0, 10, 100, 2) });
    assert_eq!(selection_status(&a), "構え完了: 100x2 @ (0, 10)");

    let a = after_selection(&sel(5, 6, 40, 30, Some(vec![0; 4800])));
    assert_eq!(a, AfterSelection::Captured { width: 40, height: 30 });
    assert_eq!(selection_status(&a), "クリップボードに「収納」しました (40x30)");
    assert_eq!(captured_status(1920, 1080), "クリップボードに「収納」しました (1920x1080)");
}

#[test]
fn recorded_frames_need_two_by_two() {
    assert!(keeps_recorded_frame(2, 2));
    assert!(!keeps_recorded_frame(1, 100));
    assert!(!keeps_recorded_frame(100, 0));
}

#[test]
fn encode_status_is_reported_once() {
    let mut s = EncodeStatus::Done("done!".to_string());
    let p = poll_encode_status(&mut s);
    assert_eq!(p.message.as_deref(), Some("done!"));
    assert!(!p.poll_again_soon);
    assert_eq!(s, EncodeStatus::Idle);
    let p = poll_encode_status(&mut s);
    assert!(p.message.is_none());

    let mut e = EncodeStatus::Error("bad".to_string());
    assert_eq!(poll_encode_status(&mut e).message.as_deref(), Some("bad"));
    assert_eq!(e, EncodeStatus::Idle);
}

#[test]
fn encoding_progress_keeps_polling() {
    let mut s = EncodeStatus::Encoding(encoding_status(5));
    let p = poll_encode_status(&mut s);
    assert_eq!(p.message.as_deref(), Some("収納中... (5フレーム)"));
    assert!(p.poll_again_soon);
    assert_eq!(s, EncodeStatus::Encoding("収納中... (5フレーム)".to_string()));
}

#[test]
fn stopping_an_empty_recording() {
    match stop_recording_plan(0) {
        StopRecording::NothingRecorded { message } => assert_eq!(message, "動画の保存には最低でも 2 フレーム必要だよ"),
        StopRecording::Encode { .. } => panic!("nothing was recorded"),
    }
    match stop_recording_plan(12) {
        StopRecording::Encode { message } => assert_eq!(message, "収納中... (12フレーム)"),
        StopRecording::NothingRecorded { .. } => panic!("frames were recorded"),
    }
}

#[test]
fn capturer_is_started_only_when_due() {
    assert_eq!(check_capturer(true, Some(1000), 0), CapturerCheck::Ready);
    assert_eq!(check_capturer(false, Some(1000), 999), CapturerCheck::Wait);
    assert_eq!(check_capturer(false, Some(1000), 1000), CapturerCheck::Start);
    assert_eq!(check_capturer(false, None, 0), CapturerCheck::Start);
}

#[test]
fn still_capture_asks_three_times_at_most() {
    assert_eq!(still_capture_step(1, FrameOutcome::Frame), StillCaptureStep::Use);
    assert_eq!(still_capture_step(1, FrameOutcome::NoFrame), StillCaptureStep::Retry);
    assert_eq!(still_capture_step(2, FrameOutcome::NoFrame), StillCaptureStep::Retry);
    assert_eq!(still_capture_step(3, FrameOutcome::NoFrame), StillCaptureStep::GiveUp);
    assert_eq!(still_capture_step(2, FrameOutcome::Failed), StillCaptureStep::Restart);
}
