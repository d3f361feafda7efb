use aynime_issen::text::{
    chars_of, str_eq_ignore_ascii_case, string_of, vec_collapse_spaces, vec_contains, vec_decimal, vec_ends_with,
    vec_find, vec_replace_all, vec_split, vec_trim,
};

fn v(s: &str) -> Vec<char> {
    chars_of(s)
}

fn s(v: &Vec<char>) -> String {
    string_of(v)
}

#[test]
fn chars_round_trip() {
    assert_eq!(s(&v("作品名 abc")), "作品名 abc");
    assert_eq!(v("aé"), vec!['a', 'é']);
}

#[test]
fn find_and_contains() {
    assert_eq!(vec_find(&v("abcabc"), &v("ca")), Some(2));
    assert_eq!(vec_find(&v("abc"), &v("x")), None);
    assert_eq!(vec_find(&v("abc"), &v("")), Some(0));
    assert!(vec_contains(&v("nicovideo.jp"), &v("video")));
    assert!(!vec_contains(&v("ab"), &v("abc")));
    assert!(vec_ends_with(&v("Google Chrome"), &v("Chrome")));
    assert!(!vec_ends_with(&v("Chrome"), &v("Google Chrome")));
}

#[test]
fn replace_all_left_to_right_without_overlap() {
    assert_eq!(s(&vec_replace_all(&v("aaaa"), &v("aa"), &v("b"))), "bb");
    assert_eq!(s(&vec_replace_all(&v("aaa"), &v("aa"), &v("b"))), "ba");
    assert_eq!(s(&vec_replace_all(&v("x - y - z"), &v(" - "), &v(""))), "xyz");
    // A pattern that does not occur leaves the text as it is.
    assert_eq!(s(&vec_replace_all(&v("hello"), &v("zz"), &v("!"))), "hello");
}

#[test]
fn split_like_str_split() {
    let parts: Vec<String> = vec_split(&v("a - b - - c"), &v(" - ")).iter().map(s).collect();
    assert_eq!(parts, "a - b - - c".split(" - ").collect::<Vec<_>>());
    let parts: Vec<String> = vec_split(&v(" - "), &v(" - ")).iter().map(s).collect();
    assert_eq!(parts, vec!["", ""]);
    let parts: Vec<String> = vec_split(&v(""), &v(" - ")).iter().map(s).collect();
    assert_eq!(parts, vec![""]);
}

#[test]
fn trim_like_str_trim() {
    for t in ["  a b  ", "\u{3000}x\u{3000}", "\t\n", "", "\u{a0}y\u{2009}", "z\u{200b}"] {
        assert_eq!(s(&vec_trim(&v(t))), t.trim());
        // Trimming twice is trimming once.
        assert_eq!(s(&vec_trim(&vec_trim(&v(t)))), t.trim());
    }
}

#[test]
fn collapse_spaces_shortens_runs() {
    assert_eq!(s(&vec_collapse_spaces(&v("a   b  c "))), "a b c ");
    assert_eq!(s(&vec_collapse_spaces(&v("   "))), " ");
    let once = vec_collapse_spaces(&v(" x    y  "));
    assert_eq!(vec_collapse_spaces(&once), once);
    assert!(!s(&once).contains("  "));
}

#[test]
fn decimal_like_to_string() {
    for n in [0u64, 7, 10, 99, 100, 1920, u64::MAX] {
        assert_eq!(s(&vec_decimal(n)), n.to_string());
    }
}

#[test]
fn ascii_case_insensitive_equality() {
    assert!(str_eq_ignore_ascii_case("Bin", "bIN"));
    assert!(str_eq_ignore_ascii_case("ÄbC", "Äbc"));
    assert!(!str_eq_ignore_ascii_case("Ä", "ä"));
    assert!(!str_eq_ignore_ascii_case("bin", "bins"));
    for (a, b) in [("Bin", "bIN"), ("ÄbC", "Äbc"), ("Ä", "ä"), ("a@", "A`")] {
        assert_eq!(str_eq_ignore_ascii_case(a, b), a.eq_ignore_ascii_case(b));
    }
}
