//! Application configuration: which export formats are offered and the
//! default recording settings.

use vstd::prelude::*;
use crate::text::{eq_ignore_ascii_case, str_eq_ignore_ascii_case, string_views};

verus! {

/// Application configuration, persisted as JSON.
pub struct AppConfig {
    /// Enabled still image formats
    pub still_formats: Vec<String>,
    /// Enabled video/animation formats
    pub video_formats: Vec<String>,
    /// Default FPS for video recording
    pub default_fps: u32,
    /// Default export format
    pub default_format: String,
}

impl Default for AppConfig {
    fn default() -> (c: Self)
        ensures
            string_views(c.still_formats@) == seq!["PNG"@, "WebP"@, "JPEG"@, "BMP"@],
            string_views(c.video_formats@) == seq!["GIF"@, "MP4"@, "WebM"@],
            c.default_fps == 15,
            c.default_format@ == "PNG"@,
    {
        let still_formats = vec![
            String::from_str("PNG"),
            String::from_str("WebP"),
            String::from_str("JPEG"),
            String::from_str("BMP"),
        ];
        let video_formats = vec![String::from_str("GIF"), String::from_str("MP4"), String::from_str("WebM")];
        assert(string_views(still_formats@) =~= seq!["PNG"@, "WebP"@, "JPEG"@, "BMP"@]);
        assert(string_views(video_formats@) =~= seq!["GIF"@, "MP4"@, "WebM"@]);
        Self { still_formats, video_formats, default_fps: 15, default_format: String::from_str("PNG") }
    }
}

fn clone_strings(v: &Vec<String>, out: &mut Vec<String>)
    ensures
        string_views(final(out)@) == string_views(old(out)@) + string_views(v@),
{
    let mut i: usize = 0;
    while i < v.len()
        invariant
            i <= v.len(),
            string_views(out@) == string_views(old(out)@) + string_views(v@).take(i as int),
        decreases v.len() - i,
    {
        let ghost before = out@;
        out.push(v[i].clone());
        assert(string_views(out@) =~= string_views(before).push(v@[i as int]@));
        assert(string_views(v@).take(i + 1) =~= string_views(v@).take(i as int).push(v@[i as int]@));
        i = i + 1;
    }
    assert(string_views(v@).take(v.len() as int) =~= string_views(v@));
}

impl AppConfig {
    /// Get all format names (still + video) in order.
    pub fn all_formats(&self) -> (r: Vec<String>)
        ensures
            string_views(r@) == string_views(self.still_formats@) + string_views(self.video_formats@),
    {
        let mut all: Vec<String> = Vec::new();
        clone_strings(&self.still_formats, &mut all);
        clone_strings(&self.video_formats, &mut all);
        assert(string_views(Seq::<String>::empty()) =~= Seq::<Seq<char>>::empty());
        assert(string_views(all@) =~= string_views(self.still_formats@) + string_views(self.video_formats@));
        all
    }

    /// Whether `name` names a video format, up to ASCII case.
    pub open spec fn spec_is_video_format(&self, name: Seq<char>) -> bool {
        exists|i: int| 0 <= i < self.video_formats@.len() && eq_ignore_ascii_case(self.video_formats@[i]@, name)
    }

    /// Check if a format name is a video format.
    pub fn is_video_format(&self, name: &str) -> (r: bool)
        ensures
            r == self.spec_is_video_format(name@),
    {
        let mut i: usize = 0;
        while i < self.video_formats.len()
            invariant
                i <= self.video_formats.len(),
                forall|k: int| 0 <= k < i ==> !eq_ignore_ascii_case(self.video_formats@[k]@, name@),
            decreases self.video_formats.len() - i,
        {
            if str_eq_ignore_ascii_case(self.video_formats[i].as_str(), name) {
                return true;
            }
            i = i + 1;
        }
        false
    }
}

} // verus!
