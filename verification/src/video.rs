//! The recorded videos: which recording and replay files are the latest,
//! how the two are merged into one file, and where the titled video ends up.
use vstd::prelude::*;
use crate::json::{json_get, json_member, json_parse, json_text, json_to_string, parse_json};
use crate::strings::{
    chars_of, contains, decimal, lacks_all, lemma_lex_total, lemma_lex_trans, lex_le, lex_le_chars,
    lowercase, to_lowercase, u64_decimal,
};
use crate::text::{
    lemma_youtube_url_filter_keeps_clean, path_clean, path_cleaned, url_noise, youtube_url_filter,
    youtube_url_filtered,
};

verus! {

/// Where the recorder writes its recordings and replay buffers.
pub const IN_VIDEOS_PATH: &'static str = "D:\\OBS\\Recordings\\";

/// Where merged and titled videos are written.
pub const OUT_VIDEOS_PATH: &'static str = "D:\\Development\\HRA\\";

/// The extension of video files.
pub const VIDEO_EXT: &'static str = ".mp4";

/// How often merging the replay and the recording is tried.
pub const MERGE_ATTEMPTS: usize = 3;

/// The address that asks noembed.com for the details of a YouTube video.
pub open spec fn noembed_url_text(yt_url: Seq<char>) -> Seq<char> {
    "https://noembed.com/embed?url=https://"@ + youtube_url_filtered(yt_url)
}

/// The noembed.com address for the video whose address bar reads `yt_url`.
pub fn noembed_url(yt_url: &str) -> (r: String)
    ensures
        r@ == noembed_url_text(yt_url@),
{
    let mut r = "https://noembed.com/embed?url=https://".to_owned();
    let filtered = youtube_url_filter(yt_url);
    r.append(filtered.as_str());
    r
}

/// The title in a noembed.com reply: the written form of its `title`.
/// `None` when the reply is no JSON or has no `title`.
pub open spec fn noembed_title_text(reply: Seq<char>) -> Option<Seq<char>> {
    match json_parse(reply) {
        None => None,
        Some(v) => match json_get(v, "title"@) {
            None => None,
            Some(title) => Some(json_text(title)),
        },
    }
}

/// Reads the title out of a noembed.com reply.
pub fn noembed_title(reply: &str) -> (r: Option<String>)
    ensures
        r is None <==> noembed_title_text(reply@) is None,
        r matches Some(t) ==> noembed_title_text(reply@) == Some(t@),
{
    let value = match parse_json(reply) {
        Some(v) => v,
        None => return None,
    };
    match json_member(&value, "title") {
        Some(title) => Some(json_to_string(title)),
        None => None,
    }
}

/// An address read without OCR noise and without any of the broken
/// fragments the repair fixes is asked about exactly as it reads, letter
/// case included: the noembed address is the fixed prefix followed by it.
pub proof fn lemma_noembed_url_keeps_address(yt_url: Seq<char>)
    requires
        lacks_all(yt_url, url_noise()),
        !contains(yt_url, ".comy"@),
        !contains(yt_url, "watchv="@),
        !contains(yt_url, "becom"@),
        !contains(yt_url, "comwatch"@),
    ensures
        noembed_url_text(yt_url) == "https://noembed.com/embed?url=https://"@ + yt_url,
{
    lemma_youtube_url_filter_keeps_clean(yt_url);
}

/// The file pattern of recordings (file names that do not start with one of
/// the letters of "{Replay}").
pub fn recording_pattern() -> (r: String)
    ensures
        r@ == "D:\\OBS\\Recordings\\"@ + "[!{Replay}]*"@ + ".mp4"@,
{
    let mut r = IN_VIDEOS_PATH.to_owned();
    r.append("[!{Replay}]*");
    r.append(VIDEO_EXT);
    r
}

/// The file pattern of replay-buffer files.
pub fn replay_pattern() -> (r: String)
    ensures
        r@ == "D:\\OBS\\Recordings\\"@ + "Replay*"@ + ".mp4"@,
{
    let mut r = IN_VIDEOS_PATH.to_owned();
    r.append("Replay*");
    r.append(VIDEO_EXT);
    r
}

/// `paths[j]` is what comes last when `paths` is sorted, stably, by the
/// lowercase form of each path: its key is the greatest, and every later
/// path has a smaller key.
pub open spec fn is_latest(paths: Seq<Seq<char>>, j: int) -> bool {
    &&& 0 <= j < paths.len()
    &&& forall|k: int|
        0 <= k < paths.len() ==> lex_le(lowercase(#[trigger] paths[k]), lowercase(paths[j]))
    &&& forall|k: int|
        j < k < paths.len() ==> !lex_le(lowercase(paths[j]), lowercase(#[trigger] paths[k]))
}

/// Only one path of a listing is the latest.
pub proof fn lemma_latest_unique(paths: Seq<Seq<char>>, i: int, j: int)
    requires
        is_latest(paths, i),
        is_latest(paths, j),
    ensures
        i == j,
{
    if i < j {
        assert(lex_le(lowercase(paths[i]), lowercase(paths[j])));
        assert(!lex_le(lowercase(paths[i]), lowercase(paths[j])));
    } else if j < i {
        assert(lex_le(lowercase(paths[j]), lowercase(paths[i])));
        assert(!lex_le(lowercase(paths[j]), lowercase(paths[i])));
    }
}

/// The latest file of a listing: the one that comes last when the listing
/// is sorted, stably, by the lowercase form of each path. `None` for an
/// empty listing.
pub fn latest_video(paths: &Vec<String>) -> (r: Option<String>)
    ensures
        r is None <==> paths.len() == 0,
        r matches Some(p) ==> exists|j: int| is_latest(paths.deep_view(), j) && p@ == paths.deep_view()[j],
{
    let ghost ps = paths.deep_view();
    if paths.len() == 0 {
        return None;
    }
    let first = to_lowercase(paths[0].as_str());
    let mut best: usize = 0;
    let mut best_key = chars_of(first.as_str());
    let mut i: usize = 1;
    assert(ps[0] == paths@[0]@);
    proof {
        lemma_lex_total(best_key@, best_key@);
    }
    while i < paths.len()
        invariant
            ps == paths.deep_view(),
            0 <= best < i <= paths.len(),
            best_key@ == lowercase(ps[best as int]),
            forall|k: int| 0 <= k < i ==> lex_le(lowercase(#[trigger] ps[k]), lowercase(ps[best as int])),
            forall|k: int| best < k < i ==> !lex_le(lowercase(ps[best as int]), lowercase(#[trigger] ps[k])),
        decreases paths.len() - i,
    {
        let lower = to_lowercase(paths[i].as_str());
        let key = chars_of(lower.as_str());
        assert(ps[i as int] == paths@[i as int]@);
        if lex_le_chars(&best_key, &key) {
            proof {
                assert forall|k: int| 0 <= k < i + 1 implies lex_le(
                    lowercase(#[trigger] ps[k]),
                    lowercase(ps[i as int]),
                ) by {
                    if k < i {
                        lemma_lex_trans(lowercase(ps[k]), lowercase(ps[best as int]), lowercase(ps[i as int]));
                    } else {
                        lemma_lex_total(lowercase(ps[k]), lowercase(ps[k]));
                    }
                }
            }
            best = i;
            best_key = key;
        } else {
            proof {
                lemma_lex_total(lowercase(ps[best as int]), lowercase(ps[i as int]));
            }
        }
        i = i + 1;
    }
    let r = paths[best].clone();
    assert(is_latest(ps, best as int));
    Some(r)
}

/// The latest recording and the latest replay-buffer file.
pub struct GlobResult {
    pub replay: Option<String>,
    pub recording: Option<String>,
}

impl GlobResult {
    /// No file found yet.
    pub fn new() -> (r: Self)
        ensures
            r.replay is None,
            r.recording is None,
    {
        GlobResult { replay: None, recording: None }
    }

    /// The latest file of each listing.
    pub fn from_listings(recordings: &Vec<String>, replays: &Vec<String>) -> (r: Self)
        ensures
            r.recording is None <==> recordings.len() == 0,
            r.recording matches Some(p) ==> exists|j: int|
                is_latest(recordings.deep_view(), j) && p@ == recordings.deep_view()[j],
            r.replay is None <==> replays.len() == 0,
            r.replay matches Some(p) ==> exists|j: int|
                is_latest(replays.deep_view(), j) && p@ == replays.deep_view()[j],
    {
        GlobResult { recording: latest_video(recordings), replay: latest_video(replays) }
    }
}

/// The files to merge, in order, and the file to merge them into.
pub struct MergePlan {
    pub files: Vec<String>,
    pub out_file: String,
}

/// The merged video's file: named by the seconds since the Unix epoch when
/// the clock can tell them.
pub open spec fn merged_file_text(now_secs: Option<u64>) -> Seq<char> {
    match now_secs {
        Some(t) => "D:\\Development\\HRA\\"@ + decimal(t as nat) + "output.mp4"@,
        None => "D:\\Development\\HRA\\"@ + "output.mp4"@,
    }
}

/// How the replay and the recording are merged: the replay first, then the
/// recording, into a file named by the time. `None` unless both were found.
pub fn merge_plan(result: &GlobResult, now_secs: Option<u64>) -> (r: Option<MergePlan>)
    ensures
        r is None <==> (result.replay is None || result.recording is None),
        r matches Some(p) ==> {
            &&& p.files@.len() == 2
            &&& result.replay matches Some(replay) && p.files@[0]@ == replay@
            &&& result.recording matches Some(recording) && p.files@[1]@ == recording@
            &&& p.out_file@ == merged_file_text(now_secs)
        },
{
    match (&result.replay, &result.recording) {
        (Some(replay), Some(recording)) => {
            let mut out_file = OUT_VIDEOS_PATH.to_owned();
            match now_secs {
                Some(t) => {
                    let digits = u64_decimal(t);
                    out_file.append(digits.as_str());
                    out_file.append("output.mp4");
                },
                None => {
                    out_file.append("output.mp4");
                },
            }
            let mut files: Vec<String> = Vec::new();
            files.push(replay.clone());
            files.push(recording.clone());
            Some(MergePlan { files, out_file })
        },
        _ => None,
    }
}

/// A video ready for upload: where its file is and its title.
pub struct FileResult {
    pub path: String,
    pub name: String,
}

/// The retries of merging the replay and the recording: how many merges
/// were tried, and the merged file once one gave a video of positive
/// length.
pub struct MergeAttempts {
    pub tried: usize,
    pub merged: Option<String>,
}

impl MergeAttempts {
    /// No merge tried yet.
    pub fn new() -> (r: Self)
        ensures
            r.tried == 0,
            r.merged is None,
    {
        MergeAttempts { tried: 0, merged: None }
    }

    /// Whether another merge is to be tried: none succeeded yet, and fewer
    /// than `MERGE_ATTEMPTS` were tried.
    pub fn can_try(&self) -> (r: bool)
        ensures
            r == (self.merged is None && self.tried < MERGE_ATTEMPTS),
    {
        self.merged.is_none() && self.tried < MERGE_ATTEMPTS
    }

    /// Records one merge: the file it wrote, if any, and the length in
    /// seconds of the video in it (read only when there is a file). The merge
    /// succeeded when it wrote a file whose video lasts more than zero
    /// seconds; the result tells whether it did.
    pub fn record(&mut self, out_file: Option<String>, duration_secs: u64) -> (r: bool)
        requires
            old(self).merged is None,
            old(self).tried < MERGE_ATTEMPTS,
        ensures
            final(self).tried == old(self).tried + 1,
            r == (out_file is Some && duration_secs > 0),
            final(self).merged == (if r {
                out_file
            } else {
                None
            }),
    {
        self.tried = self.tried + 1;
        match out_file {
            Some(f) => {
                if duration_secs > 0 {
                    self.merged = Some(f);
                    true
                } else {
                    false
                }
            },
            None => false,
        }
    }
}

/// Where the title of a recorded video comes from: the title found while
/// recording, with "Hasan reacts to" before it, or else the model is asked.
pub enum TitleStep {
    Use(String),
    AskModel,
}

/// The title of a video whose title was read off the screen or the web.
pub open spec fn reaction_title(title: Seq<char>) -> Seq<char> {
    "Hasan reacts to "@ + title
}

/// Where the title of a recorded video comes from: the title found while
/// recording, with "Hasan reacts to" before it; the model only when none was
/// found.
pub fn title_step(title: Option<String>) -> (r: TitleStep)
    ensures
        title matches Some(t) ==> (r matches TitleStep::Use(u) && u@ == reaction_title(t@)),
        title is None ==> r is AskModel,
{
    match title {
        Some(retrieved) => {
            let mut t = "Hasan reacts to ".to_owned();
            t.append(retrieved.as_str());
            TitleStep::Use(t)
        },
        None => TitleStep::AskModel,
    }
}

/// The video ready for upload, given its merged file, its final title if
/// there is one, and whether the move to the title's destination succeeded:
/// titled and at its destination, or titled and still at its source when
/// the move failed. `None` without a title.
pub fn file_result(source: String, title: Option<String>, renamed: bool) -> (r: Option<FileResult>)
    ensures
        r is None <==> title is None,
        r matches Some(f) ==> (title matches Some(t) && f.name == t && f.path@ == (if renamed {
            destination_text(t@)
        } else {
            source@
        })),
{
    match title {
        Some(t) => {
            let path = if renamed {
                video_destination(t.as_str())
            } else {
                source
            };
            Some(FileResult { path, name: t })
        },
        None => None,
    }
}

/// Where a titled video is moved: its cleaned title as the file name.
pub open spec fn destination_text(title: Seq<char>) -> Seq<char> {
    "D:\\Development\\HRA\\"@ + path_cleaned(title) + ".mp4"@
}

/// The destination file of a video with the given title.
pub fn video_destination(title: &str) -> (r: String)
    ensures
        r@ == destination_text(title@),
{
    let mut r = OUT_VIDEOS_PATH.to_owned();
    let cleaned = path_clean(title);
    r.append(cleaned.as_str());
    r.append(VIDEO_EXT);
    r
}

} // verus!
