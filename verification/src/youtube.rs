//! What `yt-dlp` reports about a playlist, and how a playlist is named.
use vstd::prelude::*;
use vstd::utf8::encode_utf8;

use crate::error::YitError;
use crate::text::{last_line, last_line_of};

verus! {

/// One thumbnail image of a playlist or a video.
pub struct Thumbnail {
    pub url: String,
}

/// One video of a playlist, as the flat playlist listing of `yt-dlp` gives it.
pub struct PlaylistEntry {
    pub id: String,
    pub title: String,
    pub uploader: Option<String>,
    pub thumbnails: Option<Vec<Thumbnail>>,
}

/// A playlist with its videos in playlist order.
pub struct PlaylistInfo {
    pub id: String,
    pub title: String,
    pub thumbnails: Option<Vec<Thumbnail>>,
    pub entries: Vec<PlaylistEntry>,
}

/// The URL of the last thumbnail in the list, if there is one.
pub open spec fn last_thumbnail(thumbnails: Option<Vec<Thumbnail>>) -> Option<Seq<char>> {
    match thumbnails {
        Some(v) => if v@.len() > 0 { Some(v@.last().url@) } else { None },
        None => None,
    }
}

/// The thumbnail that represents a playlist or a video: the last one listed.
pub fn thumbnail_url(thumbnails: &Option<Vec<Thumbnail>>) -> (res: Option<String>)
    ensures
        res.deep_view() == last_thumbnail(*thumbnails),
{
    match thumbnails {
        Some(v) => {
            if v.len() > 0 {
                Some(v[v.len() - 1].url.clone())
            } else {
                None
            }
        },
        None => None,
    }
}

/// YouTube keeps a placeholder entry, with one of these titles, in place of a
/// video that was deleted or made private; such entries are never tracked.
pub open spec fn is_unavailable(title: Seq<char>) -> bool {
    title == "[Deleted video]"@ || title == "[Private video]"@
}

/// Whether an entry title marks a deleted or private video.
pub fn title_is_unavailable(title: &String) -> (res: bool)
    ensures
        res == is_unavailable(title@),
{
    let deleted = "[Deleted video]".to_owned();
    let private = "[Private video]".to_owned();
    *title == deleted || *title == private
}

/// What the URL parser makes of a text: `None` where it is no absolute URL,
/// else the decoded key-value pairs of its query, in order.
pub uninterp spec fn parsed_query_pairs(input: Seq<char>) -> Option<Seq<(Seq<char>, Seq<char>)>>;

/// Parses a text as a URL and lists the pairs of its query string.
///
/// Trusted: calls `url::Url::parse` and, on success, `url::Url::query_pairs`
/// (percent-decoded, in the order of the query). The contract only names the
/// result; it says nothing of which texts parse.
#[verifier::external_body]
fn url_query_pairs(input: &str) -> (res: Option<Vec<(String, String)>>)
    ensures
        res.deep_view() == parsed_query_pairs(input@),
{
    match url::Url::parse(input) {
        Ok(url) => Some(url.query_pairs().into_owned().collect()),
        Err(_) => None,
    }
}

/// The value of the first query pair whose key is `list`.
pub open spec fn first_list_value(pairs: Seq<(Seq<char>, Seq<char>)>) -> Option<Seq<char>>
    decreases pairs.len(),
{
    if pairs.len() == 0 {
        None
    } else if pairs[0].0 == "list"@ {
        Some(pairs[0].1)
    } else {
        first_list_value(pairs.drop_first())
    }
}

/// A bare playlist id: the text starts with `PL` and is longer than ten bytes.
pub open spec fn is_bare_playlist_id(input: Seq<char>) -> bool {
    let bytes = encode_utf8(input);
    &&& bytes.len() > 10
    &&& bytes[0] == 0x50u8  // 'P'
    &&& bytes[1] == 0x4cu8  // 'L'
}

/// The playlist id named by an input, given what the URL parser made of it:
/// the `list` parameter of a URL, else the input itself when it is a bare id.
pub open spec fn playlist_id_of(
    input: Seq<char>,
    pairs: Option<Seq<(Seq<char>, Seq<char>)>>,
) -> Option<Seq<char>> {
    let from_url = match pairs {
        Some(p) => first_list_value(p),
        None => None,
    };
    if from_url is Some {
        from_url
    } else if is_bare_playlist_id(input) {
        Some(input)
    } else {
        None
    }
}

/// Picks the playlist id out of an input whose URL query pairs are given.
pub fn playlist_id_from(input: &str, pairs: &Option<Vec<(String, String)>>) -> (res: Option<
    String,
>)
    ensures
        res.deep_view() == playlist_id_of(input@, pairs.deep_view()),
{
    if let Some(p) = pairs {
        let list = "list".to_owned();
        let mut i: usize = 0;
        assert(p.deep_view().skip(0) =~= p.deep_view());
        while i < p.len()
            invariant
                i <= p@.len(),
                pairs.deep_view() == Some(p.deep_view()),
                list@ == "list"@,
                first_list_value(p.deep_view()) == first_list_value(p.deep_view().skip(i as int)),
            decreases p@.len() - i,
        {
            assert(p.deep_view().skip(i as int).drop_first() =~= p.deep_view().skip(i + 1));
            assert(p.deep_view()[i as int] == (p@[i as int].0@, p@[i as int].1@));
            if p[i].0 == list {
                return Some(p[i].1.clone());
            }
            i = i + 1;
        }
        assert(p.deep_view().skip(i as int).len() == 0);
        assert(first_list_value(p.deep_view()) is None);
    }
    assert(match pairs.deep_view() {
        Some(q) => first_list_value(q),
        None => None,
    } is None);
    let bytes = input.as_bytes();
    if bytes.len() > 10 && bytes[0] == 0x50u8 && bytes[1] == 0x4cu8 {
        Some(input.to_owned())
    } else {
        None
    }
}

/// Reads a playlist id from a playlist URL (its `list` parameter) or from a
/// bare id.
pub fn extract_playlist_id(input: &str) -> (res: Option<String>)
    ensures
        res.deep_view() == playlist_id_of(input@, parsed_query_pairs(input@)),
{
    let pairs = url_query_pairs(input);
    playlist_id_from(input, &pairs)
}

/// The page of a video.
pub open spec fn watch_url_of(video_id: Seq<char>) -> Seq<char> {
    "https://www.youtube.com/watch?v="@ + video_id
}

/// The page of a video.
pub fn watch_url(video_id: &str) -> (res: String)
    ensures
        res@ == watch_url_of(video_id@),
{
    let mut s = "https://www.youtube.com/watch?v=".to_owned();
    s.append(video_id);
    s
}

/// The page of a playlist.
pub open spec fn playlist_url_of(playlist_id: Seq<char>) -> Seq<char> {
    "https://www.youtube.com/playlist?list="@ + playlist_id
}

/// The arguments of the `yt-dlp` run that lists a playlist as JSON.
pub fn fetch_args(playlist_id: &str) -> (res: Vec<String>)
    ensures
        res.deep_view() == seq![
            "-J"@,
            "--flat-playlist"@,
            "--no-warnings"@,
            playlist_url_of(playlist_id@),
        ],
{
    let mut url = "https://www.youtube.com/playlist?list=".to_owned();
    url.append(playlist_id);
    let mut v: Vec<String> = Vec::new();
    v.push("-J".to_owned());
    v.push("--flat-playlist".to_owned());
    v.push("--no-warnings".to_owned());
    v.push(url);
    assert(v.deep_view() =~= seq![
        "-J"@,
        "--flat-playlist"@,
        "--no-warnings"@,
        playlist_url_of(playlist_id@),
    ]);
    v
}

/// What a failed `yt-dlp` run is reported with: the last line it wrote to
/// its error stream, or `unknown error` when it wrote nothing.
pub open spec fn failure_detail_of(stderr: Seq<char>) -> Seq<char> {
    match last_line(stderr) {
        Some(line) => line,
        None => "unknown error"@,
    }
}

/// The last line of the error stream of a failed `yt-dlp` run.
pub fn failure_detail(stderr: &str) -> (res: String)
    ensures
        res@ == failure_detail_of(stderr@),
{
    match last_line_of(stderr) {
        Some(line) => line,
        None => "unknown error".to_owned(),
    }
}

/// The failure reported when `yt-dlp` could not list a playlist.
pub fn fetch_failure(playlist_id: &str, stderr: &str) -> (res: YitError)
    ensures
        res matches YitError::FetchFailed { playlist_id: p, detail: d } && p@ == playlist_id@
            && d@ == failure_detail_of(stderr@),
{
    YitError::FetchFailed { playlist_id: playlist_id.to_owned(), detail: failure_detail(stderr) }
}

} // verus!
