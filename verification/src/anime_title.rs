//! Extracting an anime title from a browser window title, and making a
//! title safe as a Windows file name.

use vstd::prelude::*;
use crate::text::{
    chars_of, collapse_space_runs, contains, ends_with, find, lemma_find, replace_all, split, string_of,
    trim, vec_append, vec_contains, vec_collapse_spaces, vec_ends_with, vec_find, vec_replace_all,
    vec_slice, vec_split, vec_trim, views, string_views, trim_start, trim_end, lemma_trim_edges,
};

verus! {

/// Result of anime title extraction.
pub struct AnimeTitleResult {
    /// The extracted/cleaned title.
    pub title: String,
    /// Whether this looks like an anime streaming page.
    pub is_anime: bool,
}

/// The page title of a streaming service and whether the page is one that
/// shows an anime episode, before white space is cleaned up.
pub open spec fn streaming_page_title(text: Seq<char>) -> (Seq<char>, bool) {
    if ends_with(text, "dアニメストア"@) {
        if contains(text, "アニメ動画見放題"@) {
            // A series page: no episode to name.
            (text, false)
        } else {
            // "<anime> - <episode> - <episode title> dアニメストア": keep anime and episode.
            let parts = split(replace_all(text, " dアニメストア"@, Seq::empty()), " - "@);
            (if parts.len() >= 2 { parts[0] + " "@ + parts[1] } else { parts[0] }, true)
        }
    } else if ends_with(text, "AnimeFesta"@) {
        (replace_all(text, "を見る AnimeFesta"@, Seq::empty()), true)
    } else if contains(text, "バンダイチャンネル"@) {
        let t = text.take(find(text, "バンダイチャンネル"@).unwrap());
        (if ends_with(t, "- "@) { t.take(t.len() - "- "@.len()) } else { t }, true)
    } else if ends_with(text, "Prime Video"@) {
        (replace_all(replace_all(text, "Amazon.co.jp "@, Seq::empty()), "を観る Prime Video"@, Seq::empty()), true)
    } else if ends_with(text, "ABEMA"@) {
        (replace_all(
            replace_all(replace_all(text, "(アニメ)"@, Seq::empty()), "無料動画・見逃し配信を見るなら"@, Seq::empty()),
            "ABEMA"@,
            Seq::empty(),
        ), true)
    } else if ends_with(text, "ニコニコ"@) || contains(text, "nicovideo"@) {
        (replace_all(replace_all(text, " - ニコニコ"@, Seq::empty()), " - ニコニコ動画"@, Seq::empty()), true)
    } else if contains(text, "Crunchyroll"@) {
        (replace_all(text, " - Crunchyroll"@, Seq::empty()), true)
    } else {
        (text, false)
    }
}

/// A browser page title reduced to its anime title, white space cleaned up.
pub open spec fn browser_page_anime_title(page: Seq<char>) -> (Seq<char>, bool) {
    let r = streaming_page_title(page);
    (collapse_space_runs(trim(r.0)), r.1)
}

/// The title and anime flag that a window title gives.
pub open spec fn anime_title_of(raw: Seq<char>) -> (Seq<char>, bool) {
    let text = trim(raw);
    if text.len() == 0 {
        (Seq::empty(), false)
    } else if ends_with(text, "Mozilla Firefox"@) {
        browser_page_anime_title(replace_all(text, " - Mozilla Firefox"@, Seq::empty()))
    } else if ends_with(text, "Google Chrome"@) {
        browser_page_anime_title(replace_all(text, " - Google Chrome"@, Seq::empty()))
    } else if ends_with(text, "Microsoft Edge"@) {
        browser_page_anime_title(replace_all(text, " - Microsoft Edge"@, Seq::empty()))
    } else if ends_with(text, " - Discord"@) {
        // A Discord stream shows the channel name, not the anime.
        (replace_all(text, " - Discord"@, Seq::empty()), false)
    } else {
        (text, false)
    }
}

/// `text` with every occurrence of the literal `pat` removed.
fn remove_all(text: &Vec<char>, pat: &str) -> (r: Vec<char>)
    requires
        pat@.len() > 0,
    ensures
        r@ == replace_all(text@, pat@, Seq::empty()),
{
    let p = chars_of(pat);
    let empty: Vec<char> = Vec::new();
    vec_replace_all(text, &p, &empty)
}

fn ends_with_lit(text: &Vec<char>, pat: &str) -> (r: bool)
    ensures
        r == ends_with(text@, pat@),
{
    vec_ends_with(text, &chars_of(pat))
}

fn contains_lit(text: &Vec<char>, pat: &str) -> (r: bool)
    ensures
        r == contains(text@, pat@),
{
    vec_contains(text, &chars_of(pat))
}

fn streaming_page_title_of(text: Vec<char>) -> (r: (Vec<char>, bool))
    ensures
        (r.0@, r.1) == streaming_page_title(text@),
{
    proof {
        reveal_strlit(" dアニメストア");
        reveal_strlit(" - ");
        reveal_strlit("を見る AnimeFesta");
        reveal_strlit("Amazon.co.jp ");
        reveal_strlit("を観る Prime Video");
        reveal_strlit("(アニメ)");
        reveal_strlit("無料動画・見逃し配信を見るなら");
        reveal_strlit("ABEMA");
        reveal_strlit(" - ニコニコ");
        reveal_strlit(" - ニコニコ動画");
        reveal_strlit(" - Crunchyroll");
    }
    if ends_with_lit(&text, "dアニメストア") {
        if contains_lit(&text, "アニメ動画見放題") {
            (text, false)
        } else {
            let t = remove_all(&text, " dアニメストア");
            let sep = chars_of(" - ");
            let parts = vec_split(&t, &sep);
            proof { lemma_split_nonempty(t@, sep@); }
            assert(views(parts@)[0] == parts@[0]@);
            let joined = if parts.len() >= 2 {
                assert(views(parts@)[1] == parts@[1]@);
                let mut j = vec_slice(&parts[0], 0, parts[0].len());
                vec_append(&mut j, &chars_of(" "));
                vec_append(&mut j, &parts[1]);
                j
            } else {
                vec_slice(&parts[0], 0, parts[0].len())
            };
            proof {
                assert(parts@[0]@.subrange(0, parts@[0]@.len() as int) =~= parts@[0]@);
            }
            (joined, true)
        }
    } else if ends_with_lit(&text, "AnimeFesta") {
        (remove_all(&text, "を見る AnimeFesta"), true)
    } else if contains_lit(&text, "バンダイチャンネル") {
        let bc = chars_of("バンダイチャンネル");
        let pos = vec_find(&text, &bc);
        proof { lemma_find(text@, bc@); }
        let bc_pos = pos.unwrap();
        let t = vec_slice(&text, 0, bc_pos);
        let dash = chars_of("- ");
        if vec_ends_with(&t, &dash) {
            (vec_slice(&t, 0, t.len() - dash.len()), true)
        } else {
            (t, true)
        }
    } else if ends_with_lit(&text, "Prime Video") {
        let t = remove_all(&text, "Amazon.co.jp ");
        (remove_all(&t, "を観る Prime Video"), true)
    } else if ends_with_lit(&text, "ABEMA") {
        let t = remove_all(&text, "(アニメ)");
        let t = remove_all(&t, "無料動画・見逃し配信を見るなら");
        (remove_all(&t, "ABEMA"), true)
    } else if ends_with_lit(&text, "ニコニコ") || contains_lit(&text, "nicovideo") {
        let t = remove_all(&text, " - ニコニコ");
        (remove_all(&t, " - ニコニコ動画"), true)
    } else if contains_lit(&text, "Crunchyroll") {
        (remove_all(&text, " - Crunchyroll"), true)
    } else {
        (text, false)
    }
}

proof fn lemma_split_nonempty(s: Seq<char>, p: Seq<char>)
    requires
        p.len() > 0,
    ensures
        split(s, p).len() >= 1,
        split(s, p)[0] == (match find(s, p) {
            Some(i) => s.take(i),
            None => s,
        }),
{
    lemma_find(s, p);
}

/// The title that a browser page title gives, and whether it is an anime page.
fn browser_page_anime_title_of(page: Vec<char>) -> (r: AnimeTitleResult)
    ensures
        (r.title@, r.is_anime) == browser_page_anime_title(page@),
{
    let (title, is_anime) = streaming_page_title_of(page);
    // Clean up whitespace
    let title = vec_trim(&title);
    let title = collapse_spaces(&string_of(&title));
    AnimeTitleResult { title, is_anime }
}

/// Extract anime title from a window title string.
pub fn extract_anime_title(text: &str) -> (r: AnimeTitleResult)
    ensures
        (r.title@, r.is_anime) == anime_title_of(text@),
{
    proof {
        reveal_strlit(" - Mozilla Firefox");
        reveal_strlit(" - Google Chrome");
        reveal_strlit(" - Microsoft Edge");
        reveal_strlit(" - Discord");
    }
    let text = vec_trim(&chars_of(text));
    if text.len() == 0 {
        return AnimeTitleResult { title: String::new(), is_anime: false };
    }
    // Strip the browser suffix to get the page title
    if ends_with_lit(&text, "Mozilla Firefox") {
        browser_page_anime_title_of(remove_all(&text, " - Mozilla Firefox"))
    } else if ends_with_lit(&text, "Google Chrome") {
        browser_page_anime_title_of(remove_all(&text, " - Google Chrome"))
    } else if ends_with_lit(&text, "Microsoft Edge") {
        browser_page_anime_title_of(remove_all(&text, " - Microsoft Edge"))
    } else if ends_with_lit(&text, " - Discord") {
        // Discord stream shows channel name, not anime
        AnimeTitleResult { title: string_of(&remove_all(&text, " - Discord")), is_anime: false }
    } else {
        AnimeTitleResult { title: string_of(&text), is_anime: false }
    }
}

/// Shorten each run of spaces in `s` to a single space.
fn collapse_spaces(s: &str) -> (r: String)
    ensures
        r@ == collapse_space_runs(s@),
{
    string_of(&vec_collapse_spaces(&chars_of(s)))
}


/// Characters that a Windows file name cannot hold.
pub open spec fn is_reserved_in_file_name(c: char) -> bool {
    c == '\\' || c == '/' || c == ':' || c == '*' || c == '?' || c == '"' || c == '<' || c == '>'
        || c == '|'
}

/// The control characters U+0000 to U+001F.
pub open spec fn is_control_char(c: char) -> bool {
    (c as u32) <= 0x1f
}

/// `s` with reserved characters turned into `_` and control characters dropped.
pub open spec fn replace_reserved_chars(s: Seq<char>) -> Seq<char>
    decreases s.len(),
{
    if s.len() == 0 {
        s
    } else {
        let prev = replace_reserved_chars(s.drop_last());
        let c = s.last();
        if is_reserved_in_file_name(c) {
            prev.push('_')
        } else if is_control_char(c) {
            prev
        } else {
            prev.push(c)
        }
    }
}

pub open spec fn is_dot_or_space(c: char) -> bool {
    c == '.' || c == ' '
}

/// `s` without trailing dots and spaces.
pub open spec fn trim_end_dots_spaces(s: Seq<char>) -> Seq<char>
    decreases s.len(),
{
    if s.len() > 0 && is_dot_or_space(s.last()) {
        trim_end_dots_spaces(s.drop_last())
    } else {
        s
    }
}

/// The file name that a title gives.
pub open spec fn file_name_for(title: Seq<char>) -> Seq<char> {
    let t = trim_end_dots_spaces(replace_reserved_chars(title));
    if t.len() == 0 { "unknown"@ } else { t }
}

proof fn lemma_trim_end_dots_take(s: Seq<char>, b: int)
    requires
        0 <= b <= s.len(),
        forall|k: int| b <= k < s.len() ==> is_dot_or_space(s[k]),
        b == 0 || !is_dot_or_space(s[b - 1]),
    ensures
        trim_end_dots_spaces(s) == s.take(b),
    decreases s.len() - b,
{
    if b == s.len() {
        assert(s.take(b) =~= s);
    } else {
        lemma_trim_end_dots_take(s.drop_last(), b);
        assert(s.drop_last().take(b) =~= s.take(b));
    }
}

/// Sanitize a title for use in filenames.
/// Removes characters that are invalid in Windows filenames.
pub fn sanitize_for_filename(title: &str) -> (r: String)
    ensures
        r@ == file_name_for(title@),
{
    let chars = chars_of(title);
    let mut s: Vec<char> = Vec::new();
    let mut i: usize = 0;
    assert(chars@.take(0) =~= Seq::<char>::empty());
    while i < chars.len()
        invariant
            i <= chars.len(),
            s@ == replace_reserved_chars(chars@.take(i as int)),
        decreases chars.len() - i,
    {
        let c = chars[i];
        assert(chars@.take(i + 1).drop_last() =~= chars@.take(i as int));
        if c == '\\' || c == '/' || c == ':' || c == '*' || c == '?' || c == '"' || c == '<' || c == '>'
            || c == '|' {
            s.push('_');
        } else if (c as u32) <= 0x1f {
            // skip control chars
        } else {
            s.push(c);
        }
        i = i + 1;
    }
    assert(chars@.take(chars.len() as int) =~= chars@);
    // Trim trailing dots/spaces (Windows doesn't allow them at end of filename)
    let mut b: usize = s.len();
    while b > 0 && (s[b - 1] == '.' || s[b - 1] == ' ')
        invariant
            b <= s.len(),
            forall|k: int| b <= k < s.len() ==> is_dot_or_space(s@[k]),
        decreases b,
    {
        b = b - 1;
    }
    proof { lemma_trim_end_dots_take(s@, b as int); }
    if b == 0 {
        String::from_str("unknown")
    } else {
        string_of(&vec_slice(&s, 0, b))
    }
}

/// The index of the first title at or after `i` that names an anime page.
pub open spec fn first_anime_title_from(titles: Seq<Seq<char>>, i: int) -> Option<int>
    decreases titles.len() - i,
{
    if i < 0 || i >= titles.len() {
        None
    } else if anime_title_of(titles[i]).1 {
        Some(i)
    } else {
        first_anime_title_from(titles, i + 1)
    }
}

/// The first of the given window titles that names an anime streaming page,
/// with its extracted title.
pub fn find_anime_title(window_titles: &Vec<String>) -> (r: Option<AnimeTitleResult>)
    ensures
        match first_anime_title_from(string_views(window_titles@), 0) {
            Some(i) => r matches Some(res)
                && (res.title@, res.is_anime) == anime_title_of(window_titles@[i]@),
            None => r is None,
        },
{
    let ghost titles = string_views(window_titles@);
    let mut i: usize = 0;
    while i < window_titles.len()
        invariant
            i <= window_titles.len(),
            titles == string_views(window_titles@),
            first_anime_title_from(titles, 0) == first_anime_title_from(titles, i as int),
        decreases window_titles.len() - i,
    {
        let result = extract_anime_title(window_titles[i].as_str());
        assert(titles[i as int] == window_titles@[i as int]@);
        if result.is_anime {
            return Some(result);
        }
        i = i + 1;
    }
    None
}

/// The last character of a non-empty sequence survives space collapsing, and
/// so does the first.
pub proof fn lemma_collapse_keeps_ends(s: Seq<char>)
    requires
        s.len() > 0,
    ensures
        collapse_space_runs(s).len() > 0,
        collapse_space_runs(s).last() == s.last(),
        collapse_space_runs(s)[0] == s[0],
    decreases s.len(),
{
    if s.len() > 1 {
        lemma_collapse_keeps_ends(s.drop_last());
        assert(s.drop_last()[0] == s[0]);
    } else {
        assert(collapse_space_runs(s.drop_last()).len() == 0);
    }
}

/// No two spaces stand next to each other once space runs are collapsed.
pub proof fn lemma_collapse_no_double_space(s: Seq<char>)
    ensures
        forall|i: int| 0 <= i < collapse_space_runs(s).len() - 1
            ==> !(collapse_space_runs(s)[i] == ' ' && #[trigger] collapse_space_runs(s)[i + 1] == ' '),
    decreases s.len(),
{
    if s.len() > 0 {
        let t = s.drop_last();
        lemma_collapse_no_double_space(t);
        let prev = collapse_space_runs(t);
        let r = collapse_space_runs(s);
        if s.len() > 1 {
            lemma_collapse_keeps_ends(t);
            assert(t.last() == s[s.len() - 2]);
        }
        assert forall|i: int| 0 <= i < r.len() - 1 implies
            !(r[i] == ' ' && #[trigger] r[i + 1] == ' ') by {
            if i + 1 < prev.len() {
                assert(r[i] == prev[i] && r[i + 1] == prev[i + 1]);
            } else {
                assert(r == prev.push(s.last()));
                assert(i == prev.len() - 1);
                assert(r[i] == prev.last());
            }
        }
    }
}

/// Collapsing space runs a second time changes nothing.
pub proof fn lemma_collapse_idempotent(s: Seq<char>)
    ensures
        collapse_space_runs(collapse_space_runs(s)) == collapse_space_runs(s),
{
    lemma_collapse_no_double_space(s);
    lemma_collapse_fixed(collapse_space_runs(s));
}

proof fn lemma_collapse_fixed(r: Seq<char>)
    requires
        forall|i: int| 0 <= i < r.len() - 1 ==> !(r[i] == ' ' && #[trigger] r[i + 1] == ' '),
    ensures
        collapse_space_runs(r) == r,
    decreases r.len(),
{
    if r.len() > 0 {
        let t = r.drop_last();
        assert forall|i: int| 0 <= i < t.len() - 1 implies !(t[i] == ' ' && #[trigger] t[i + 1] == ' ') by {
            assert(r[i + 1] == t[i + 1]);
        }
        lemma_collapse_fixed(t);
        if r.len() >= 2 {
            assert(r[r.len() - 1] == r[(r.len() - 2) + 1]);
        }
        assert(t.push(r.last()) =~= r);
    }
}

/// The title of an anime page has no leading or trailing white space and no
/// two spaces side by side.
pub proof fn lemma_anime_title_is_clean(raw: Seq<char>)
    requires
        anime_title_of(raw).1,
    ensures
        trim(anime_title_of(raw).0) == anime_title_of(raw).0,
        forall|i: int| 0 <= i < anime_title_of(raw).0.len() - 1
            ==> !(anime_title_of(raw).0[i] == ' ' && #[trigger] anime_title_of(raw).0[i + 1] == ' '),
{
    let text = trim(raw);
    let page = if ends_with(text, "Mozilla Firefox"@) {
        replace_all(text, " - Mozilla Firefox"@, Seq::empty())
    } else if ends_with(text, "Google Chrome"@) {
        replace_all(text, " - Google Chrome"@, Seq::empty())
    } else {
        replace_all(text, " - Microsoft Edge"@, Seq::empty())
    };
    let t = trim(streaming_page_title(page).0);
    assert(anime_title_of(raw).0 == collapse_space_runs(t));
    lemma_collapse_no_double_space(t);
    lemma_trim_edges(streaming_page_title(page).0);
    let c = collapse_space_runs(t);
    if t.len() > 0 {
        lemma_collapse_keeps_ends(t);
        assert(trim_start(c) == c);
        assert(trim_end(c) == c);
    } else {
        assert(c.len() == 0);
    }
}

/// A file name made from any title is non-empty, holds no reserved or
/// control character, and does not end with a dot or a space.
pub proof fn lemma_file_name_is_valid(title: Seq<char>)
    ensures
        file_name_for(title).len() > 0,
        forall|i: int| 0 <= i < file_name_for(title).len() ==>
            !is_reserved_in_file_name(#[trigger] file_name_for(title)[i])
            && !is_control_char(file_name_for(title)[i]),
        !is_dot_or_space(file_name_for(title).last()),
{
    reveal_strlit("unknown");
    lemma_replaced_chars_valid(title);
    let r = replace_reserved_chars(title);
    lemma_trim_end_dots(r);
    let f = file_name_for(title);
    assert forall|i: int| 0 <= i < f.len() implies
        !is_reserved_in_file_name(#[trigger] f[i]) && !is_control_char(f[i]) by {
        if trim_end_dots_spaces(r).len() > 0 {
            assert(f[i] == r[i]);
        }
    }
}

proof fn lemma_replaced_chars_valid(s: Seq<char>)
    ensures
        forall|i: int| 0 <= i < replace_reserved_chars(s).len() ==>
            !is_reserved_in_file_name(#[trigger] replace_reserved_chars(s)[i])
            && !is_control_char(replace_reserved_chars(s)[i]),
    decreases s.len(),
{
    if s.len() > 0 {
        lemma_replaced_chars_valid(s.drop_last());
        let prev = replace_reserved_chars(s.drop_last());
        let r = replace_reserved_chars(s);
        assert forall|i: int| 0 <= i < r.len() implies
            !is_reserved_in_file_name(#[trigger] r[i]) && !is_control_char(r[i]) by {
            if i < prev.len() {
                assert(r[i] == prev[i]);
            }
        }
    }
}

proof fn lemma_trim_end_dots(s: Seq<char>)
    ensures
        trim_end_dots_spaces(s).len() <= s.len(),
        forall|i: int| 0 <= i < trim_end_dots_spaces(s).len() ==> trim_end_dots_spaces(s)[i] == s[i],
        trim_end_dots_spaces(s).len() > 0 ==> !is_dot_or_space(trim_end_dots_spaces(s).last()),
    decreases s.len(),
{
    if s.len() > 0 && is_dot_or_space(s.last()) {
        lemma_trim_end_dots(s.drop_last());
        assert forall|i: int| 0 <= i < trim_end_dots_spaces(s).len() implies
            trim_end_dots_spaces(s)[i] == s[i] by {
            assert(s.drop_last()[i] == s[i]);
        }
    }
}

proof fn lemma_replace_valid_fixed(s: Seq<char>)
    requires
        forall|i: int| 0 <= i < s.len() ==> !is_reserved_in_file_name(#[trigger] s[i]) && !is_control_char(s[i]),
    ensures
        replace_reserved_chars(s) == s,
    decreases s.len(),
{
    if s.len() > 0 {
        lemma_replace_valid_fixed(s.drop_last());
        assert(s.drop_last().push(s.last()) =~= s);
    }
}

/// Sanitizing a file name a second time changes nothing.
pub proof fn lemma_file_name_idempotent(title: Seq<char>)
    ensures
        file_name_for(file_name_for(title)) == file_name_for(title),
{
    let f = file_name_for(title);
    lemma_file_name_is_valid(title);
    lemma_replace_valid_fixed(f);
}


/// Only browser windows (Firefox, Chrome, Edge) are taken for anime pages.
pub proof fn lemma_only_browser_pages_are_anime(raw: Seq<char>)
    requires
        anime_title_of(raw).1,
    ensures
        ends_with(trim(raw), "Mozilla Firefox"@) || ends_with(trim(raw), "Google Chrome"@)
            || ends_with(trim(raw), "Microsoft Edge"@),
{
}

proof fn lemma_first_anime_title_from(titles: Seq<Seq<char>>, start: int)
    requires
        0 <= start <= titles.len(),
    ensures
        match first_anime_title_from(titles, start) {
            Some(j) => start <= j < titles.len() && anime_title_of(titles[j]).1
                && forall|k: int| start <= k < j ==> !(#[trigger] anime_title_of(titles[k])).1,
            None => forall|k: int| start <= k < titles.len() ==> !(#[trigger] anime_title_of(titles[k])).1,
        },
    decreases titles.len() - start,
{
    if start < titles.len() && !anime_title_of(titles[start]).1 {
        lemma_first_anime_title_from(titles, start + 1);
    }
}

/// The search finds the first anime page among the titles, the first one
/// looked at included: the index it gives names an anime page and none
/// before it does, any anime page lies at or after it, and it finds none
/// only where no title names an anime page.
pub proof fn lemma_find_takes_first_anime_title(titles: Seq<Seq<char>>)
    ensures
        match first_anime_title_from(titles, 0) {
            Some(j) => 0 <= j < titles.len() && anime_title_of(titles[j]).1
                && forall|k: int| 0 <= k < j ==> !(#[trigger] anime_title_of(titles[k])).1,
            None => forall|k: int| 0 <= k < titles.len() ==> !(#[trigger] anime_title_of(titles[k])).1,
        },
        forall|i: int| 0 <= i < titles.len() && (#[trigger] anime_title_of(titles[i])).1
            ==> (first_anime_title_from(titles, 0) matches Some(j) && j <= i),
{
    lemma_first_anime_title_from(titles, 0);
}

} // verus!
