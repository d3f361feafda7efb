use aynime_issen::overlay::{border_bars, cursor_proxy_origin};
use aynime_issen::tools::{best_candidate, has_file_name, score_candidate, tool_stem};

#[test]
fn tool_stem_strips_last_extension() {
    assert_eq!(tool_stem("ffmpeg.exe"), "ffmpeg");
    assert_eq!(tool_stem("archive.tar.gz"), "archive.tar");
    assert_eq!(tool_stem("noext"), "noext");
    assert_eq!(tool_stem(".bashrc"), ".bashrc");
    assert_eq!(tool_stem("a."), "a");
}

#[test]
fn tool_stem_takes_last_path_component() {
    assert_eq!(tool_stem("C:\\tools\\ffmpeg.exe"), "ffmpeg");
    assert_eq!(tool_stem("C:ffmpeg.exe"), "ffmpeg");
    assert_eq!(tool_stem("dir/ffmpeg.exe/"), "ffmpeg");
    assert_eq!(tool_stem("a/./b.tar.gz/."), "b.tar");
    assert_eq!(tool_stem("dir\\.bashrc"), ".bashrc");
    assert_eq!(tool_stem("x/../y.zip"), "y");
}

#[test]
fn has_file_name_rejects_paths_without_a_final_name() {
    assert!(has_file_name("ffmpeg.exe"));
    assert!(has_file_name("C:\\tools\\ffmpeg.exe"));
    assert!(has_file_name("/usr/bin/ffmpeg"));
    assert!(!has_file_name(""));
    assert!(!has_file_name("."));
    assert!(!has_file_name(".."));
    assert!(!has_file_name("a/.."));
    assert!(!has_file_name("C:"));
    assert!(!has_file_name("/"));
    assert!(!has_file_name("./"));
    assert!(!has_file_name("\\\\server\\share\\ffmpeg.exe"));
}

fn comps(v: &[&str]) -> Vec<String> {
    v.iter().map(|s| s.to_string()).collect()
}

#[test]
fn candidates_in_bin_score_lower() {
    assert_eq!(score_candidate(&comps(&["tools", "ffmpeg", "bin", "ffmpeg.exe"])), -96);
    assert_eq!(score_candidate(&comps(&["tools", "BIN", "ffmpeg.exe"])), -97);
    assert_eq!(score_candidate(&comps(&["tools", "ffmpeg", "ffmpeg.exe"])), 3);
    assert_eq!(score_candidate(&comps(&["tools", "binaries", "ffmpeg.exe"])), 3);
}

#[test]
fn best_candidate_is_first_lowest() {
    assert_eq!(best_candidate(&vec![5, 3, 3, 7]), Some(1));
    assert_eq!(best_candidate(&vec![-96, 3]), Some(0));
    assert_eq!(best_candidate(&vec![]), None);
}

#[test]
fn border_bars_surround_region() {
    assert_eq!(
        border_bars(100, 200, 300, 400),
        [(97, 197, 306, 3), (97, 600, 306, 3), (97, 200, 3, 400), (400, 200, 3, 400)]
    );
}

#[test]
fn cursor_proxy_is_centred() {
    assert_eq!(cursor_proxy_origin(100, 50), (85, 35));
    assert_eq!(cursor_proxy_origin(0, 0), (-15, -15));
}
