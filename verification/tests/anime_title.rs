use aynime_issen::anime_title::{extract_anime_title, find_anime_title, sanitize_for_filename};

fn extract(s: &str) -> (String, bool) {
    let r = extract_anime_title(s);
    (r.title, r.is_anime)
}

#[test]
fn blank_title_is_empty_and_not_anime() {
    assert_eq!(extract("   "), (String::new(), false));
    assert_eq!(extract(""), (String::new(), false));
}

#[test]
fn non_browser_title_is_kept_trimmed() {
    assert_eq!(extract("  Notepad  "), ("Notepad".to_string(), false));
}

#[test]
fn danime_episode_page_keeps_anime_and_episode() {
    assert_eq!(
        extract("作品名 - 第1話 - タイトル dアニメストア - Google Chrome"),
        ("作品名 第1話".to_string(), true)
    );
}

#[test]
fn danime_without_episode_keeps_first_part() {
    assert_eq!(extract("作品名 dアニメストア - Google Chrome"), ("作品名".to_string(), true));
}

#[test]
fn danime_series_page_is_not_anime() {
    assert_eq!(
        extract("作品名 | アニメ動画見放題 | dアニメストア - Mozilla Firefox"),
        ("作品名 | アニメ動画見放題 | dアニメストア".to_string(), false)
    );
}

#[test]
fn animefesta_page() {
    assert_eq!(extract("作品名 第1話を見る AnimeFesta - Microsoft Edge"), ("作品名 第1話".to_string(), true));
}

#[test]
fn bandai_channel_page() {
    assert_eq!(
        extract("作品名 第1話 - バンダイチャンネル - Google Chrome"),
        ("作品名 第1話".to_string(), true)
    );
    assert_eq!(extract("作品名バンダイチャンネル - Google Chrome"), ("作品名".to_string(), true));
}

#[test]
fn prime_video_page() {
    assert_eq!(
        extract("Amazon.co.jp 作品名を観る Prime Video - Google Chrome"),
        ("作品名".to_string(), true)
    );
}

#[test]
fn abema_page() {
    assert_eq!(
        extract("作品名 (アニメ) | 無料動画・見逃し配信を見るなら | ABEMA - Google Chrome"),
        ("作品名 | |".to_string(), true)
    );
}

#[test]
fn niconico_pages() {
    assert_eq!(extract("作品名 - ニコニコ - Google Chrome"), ("作品名".to_string(), true));
    assert_eq!(extract("作品名 第2話 www.nicovideo.jp - Mozilla Firefox"), ("作品名 第2話 www.nicovideo.jp".to_string(), true));
    // Ends with "ニコニコ動画", not "ニコニコ", and names no nicovideo address.
    assert_eq!(
        extract("作品名 第1話 - ニコニコ動画 - Google Chrome"),
        ("作品名 第1話 - ニコニコ動画".to_string(), false)
    );
}

#[test]
fn crunchyroll_page_collapses_spaces() {
    assert_eq!(
        extract("  Show   Name - Crunchyroll - Google Chrome  "),
        ("Show Name".to_string(), true)
    );
}

#[test]
fn unicode_white_space_is_trimmed() {
    assert_eq!(
        extract("\u{3000}作品名 - ニコニコ - Google Chrome\u{3000}"),
        ("作品名".to_string(), true)
    );
}

#[test]
fn discord_title_is_channel_not_anime() {
    assert_eq!(extract("general - Discord"), ("general".to_string(), false));
}

#[test]
fn ordinary_browser_page_is_not_anime() {
    assert_eq!(extract("Google  Search - Google Chrome"), ("Google Search".to_string(), false));
}

#[test]
fn find_takes_first_anime_window() {
    let titles = vec![
        "Notepad".to_string(),
        "First - Crunchyroll - Google Chrome".to_string(),
        "Second - Crunchyroll - Google Chrome".to_string(),
    ];
    let r = find_anime_title(&titles).expect("an anime window");
    assert_eq!(r.title, "First");
    assert!(r.is_anime);
}

#[test]
fn find_without_anime_window_is_none() {
    let titles = vec!["Notepad".to_string(), "Google - Google Chrome".to_string()];
    assert!(find_anime_title(&titles).is_none());
    assert!(find_anime_title(&Vec::new()).is_none());
}

#[test]
fn sanitize_replaces_reserved_characters() {
    assert_eq!(sanitize_for_filename("a:b*c?"), "a_b_c_");
    assert_eq!(sanitize_for_filename("a<b>|\"c\\d/"), "a_b___c_d_");
}

#[test]
fn sanitize_drops_control_characters() {
    assert_eq!(sanitize_for_filename("a\tb\u{1f}c\u{7f}"), "abc\u{7f}");
}

#[test]
fn sanitize_trims_trailing_dots_and_spaces() {
    assert_eq!(sanitize_for_filename("name. . "), "name");
    assert_eq!(sanitize_for_filename(" lead"), " lead");
}

#[test]
fn sanitize_falls_back_to_unknown() {
    assert_eq!(sanitize_for_filename("..."), "unknown");
    assert_eq!(sanitize_for_filename(""), "unknown");
    assert_eq!(sanitize_for_filename("\n\r"), "unknown");
}

#[test]
fn sanitize_is_idempotent_on_examples() {
    for s in ["a:b*c?", "name. . ", "...", "作品名 第1話", "x\ty"] {
        let once = sanitize_for_filename(s);
        assert_eq!(sanitize_for_filename(&once), once);
    }
}

#[test]
fn extracted_anime_title_is_clean() {
    let r = extract_anime_title("  A  B  - Crunchyroll - Google Chrome");
    assert!(r.is_anime);
    assert_eq!(r.title.trim(), r.title);
    assert!(!r.title.contains("  "));
}
