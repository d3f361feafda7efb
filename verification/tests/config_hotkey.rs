use aynime_issen::config::AppConfig;
use aynime_issen::hotkey::{action_for_hotkey, HotkeyAction, HOTKEY_RECORD_TOGGLE, HOTKEY_STILL_CAPTURE, VK_X, VK_Z};

#[test]
fn default_config() {
    let c = AppConfig::default();
    assert_eq!(c.still_formats, vec!["PNG", "WebP", "JPEG", "BMP"]);
    assert_eq!(c.video_formats, vec!["GIF", "MP4", "WebM"]);
    assert_eq!(c.default_fps, 15);
    assert_eq!(c.default_format, "PNG");
}

#[test]
fn all_formats_lists_still_then_video() {
    let c = AppConfig::default();
    assert_eq!(c.all_formats(), vec!["PNG", "WebP", "JPEG", "BMP", "GIF", "MP4", "WebM"]);
}

#[test]
fn video_format_check_ignores_ascii_case() {
    let c = AppConfig::default();
    assert!(c.is_video_format("mp4"));
    assert!(c.is_video_format("GIF"));
    assert!(c.is_video_format("webm"));
    assert!(!c.is_video_format("PNG"));
    assert!(!c.is_video_format("MP"));
    assert!(!c.is_video_format(""));
}

#[test]
fn hotkey_ids_map_to_actions() {
    assert_eq!(action_for_hotkey(HOTKEY_STILL_CAPTURE), Some(HotkeyAction::StillCapture));
    assert_eq!(action_for_hotkey(HOTKEY_RECORD_TOGGLE), Some(HotkeyAction::RecordToggle));
    assert_eq!(action_for_hotkey(3), None);
    assert_eq!(action_for_hotkey(0), None);
}

#[test]
fn hotkey_round_trip_and_keys() {
    for a in [HotkeyAction::StillCapture, HotkeyAction::RecordToggle] {
        assert_eq!(action_for_hotkey(a.id()), Some(a));
    }
    assert_eq!(HotkeyAction::StillCapture.virtual_key(), VK_Z);
    assert_eq!(HotkeyAction::RecordToggle.virtual_key(), VK_X);
    assert_eq!((VK_Z, VK_X), (0x5A, 0x58));
}
