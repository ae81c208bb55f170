use vstd::prelude::*;

use crate::decimal::{decimal, push_decimal};
use crate::text::{
    before_first, chars_between, chars_of, contains, contains_chars, find_from, first_match,
    owned, push_char, string_from_chars, trim, trim_chars, trim_end, trim_end_chars,
};

verus! {

/// The address may name a playlist: it contains `playlist` or `list`.
pub open spec fn is_playlist_address(url: Seq<char>) -> bool {
    contains(url, "playlist"@) || contains(url, "list"@)
}

/// The address to fetch a video from: `url_or_id` itself when it is longer
/// than 20 bytes (a full address), otherwise the watch page of the video
/// with that id.
pub open spec fn watch_address(url_or_id: Seq<char>) -> Seq<char> {
    if vstd::utf8::encode_utf8(url_or_id).len() > 20 {
        url_or_id
    } else {
        "https://www.youtube.com/watch?v="@ + url_or_id
    }
}

/// The piece of `html` between the first and the second occurrence of
/// `sep` (or the end), when `sep` occurs (`str::split(sep).nth(1)`).
pub open spec fn second_piece(html: Seq<char>, sep: Seq<char>) -> Option<Seq<char>> {
    match first_match(html, sep) {
        Some(i) => {
            let rest = html.skip(i + sep.len());
            Some(before_first(rest, sep))
        },
        None => None,
    }
}

/// The JSON text of `ytInitialData` in a YouTube page: what follows
/// `var ytInitialData =` up to the next `</script>`, without trailing white
/// space and one trailing `;`; empty when the page has no such assignment.
pub open spec fn initial_data_text(html: Seq<char>) -> Seq<char> {
    let piece = match second_piece(html, "var ytInitialData ="@) {
        Some(p) => before_first(p, "</script>"@),
        None => Seq::<char>::empty(),
    };
    let t = trim_end(piece);
    if t.len() > 0 && t.last() == ';' { t.drop_last() } else { t }
}

/// The folder that downloads of a playlist go to: when an address and a
/// folder are given, and the playlist title (trimmed) is not empty and not
/// yet part of the folder, the folder followed by `\` and the title;
/// otherwise no change.
pub open spec fn playlist_folder(
    url: Seq<char>,
    save_path: Seq<char>,
    playlist_title: Option<Seq<char>>,
) -> Option<Seq<char>> {
    let title = trim(
        match playlist_title {
            Some(t) => t,
            None => Seq::<char>::empty(),
        },
    );
    if url.len() > 0 && save_path.len() > 0 && title.len() > 0 && !contains(save_path, title) {
        Some(save_path.push('\\') + title)
    } else {
        None
    }
}

/// The text of an optional string slice.
pub open spec fn opt_text(t: Option<&str>) -> Option<Seq<char>> {
    match t {
        Some(s) => Some(s@),
        None => None,
    }
}

/// Whether the address may name a playlist, as `is_playlist_address` states.
pub fn is_playlist_url(url: &str) -> (b: bool)
    ensures
        b == is_playlist_address(url@),
{
    let cs = chars_of(url);
    let a = chars_of("playlist");
    let b = chars_of("list");
    contains_chars(cs.as_slice(), a.as_slice()) || contains_chars(cs.as_slice(), b.as_slice())
}

/// The address to fetch a video from, as `watch_address` states.
pub fn watch_url(url_or_id: &str) -> (u: String)
    ensures
        u@ == watch_address(url_or_id@),
{
    if url_or_id.as_bytes().len() > 20 {
        owned(url_or_id)
    } else {
        let mut u = owned("https://www.youtube.com/watch?v=");
        u.append(url_or_id);
        u
    }
}

/// The name of the audio file that a video is saved as: its title
/// followed by `.mp3`.
pub fn audio_file_name(title: &str) -> (name: String)
    ensures
        name@ == title@ + ".mp3"@,
{
    let mut name = owned(title);
    name.append(".mp3");
    name
}

fn before_first_chars(s: &[char], p: &[char]) -> (r: Vec<char>)
    ensures
        r@ == before_first(s@, p@),
{
    match find_from(s, p, 0) {
        Some(j) => {
            let r = chars_between(s, 0, j);
            assert(r@ =~= s@.take(j as int));
            r
        },
        None => {
            let r = chars_between(s, 0, s.len());
            assert(r@ =~= s@);
            r
        },
    }
}

/// The JSON text of `ytInitialData` in a YouTube page, as
/// `initial_data_text` states.
pub fn initial_data_json(html: &str) -> (json: String)
    ensures
        json@ == initial_data_text(html@),
{
    let cs = chars_of(html);
    let sep = chars_of("var ytInitialData =");
    let end = chars_of("</script>");
    let found = find_from(cs.as_slice(), sep.as_slice(), 0);
    let piece: Vec<char> = match found {
        Some(i) => {
            let n = cs.len();
            assert(i + sep.len() <= n);
            let rest = chars_between(cs.as_slice(), i + sep.len(), n);
            assert(rest@ =~= html@.skip(i + sep@.len()));
            let p = before_first_chars(rest.as_slice(), sep.as_slice());
            before_first_chars(p.as_slice(), end.as_slice())
        },
        None => Vec::new(),
    };
    assert(piece@ =~= match second_piece(html@, "var ytInitialData ="@) {
        Some(p) => before_first(p, "</script>"@),
        None => Seq::<char>::empty(),
    });
    let t = trim_end_chars(piece.as_slice());
    if t.len() > 0 && t[t.len() - 1] == ';' {
        let u = chars_between(t.as_slice(), 0, t.len() - 1);
        assert(u@ =~= t@.drop_last());
        string_from_chars(u.as_slice())
    } else {
        string_from_chars(t.as_slice())
    }
}

/// The folder that downloads of a playlist go to, as `playlist_folder` states.
pub fn playlist_save_path(url: &str, save_path: &str, playlist_title: Option<&str>) -> (r: Option<String>)
    ensures
        r matches Some(p) ==> playlist_folder(url@, save_path@, opt_text(playlist_title)) == Some(p@),
        r is None ==> playlist_folder(url@, save_path@, opt_text(playlist_title)) is None,
{
    let raw: Vec<char> = match playlist_title {
        Some(t) => chars_of(t),
        None => Vec::new(),
    };
    assert(raw@ == match opt_text(playlist_title) {
        Some(t) => t,
        None => Seq::<char>::empty(),
    });
    let title = trim_chars(raw.as_slice());
    let path = chars_of(save_path);
    if !url.is_empty() && path.len() > 0 && title.len() > 0 && !contains_chars(path.as_slice(), title.as_slice()) {
        let mut p = owned(save_path);
        push_char(&mut p, '\\');
        let title_text = string_from_chars(title.as_slice());
        p.append(title_text.as_str());
        Some(p)
    } else {
        None
    }
}

/// Whether to stop trying to download a video: after the fourth attempt,
/// or once a download gave a non-empty file.
pub fn download_attempts_done(attempts: u32, file_size: u64) -> (done: bool)
    ensures
        done == (attempts > 3 || file_size > 0),
{
    attempts > 3 || file_size > 0
}

/// An optional text.
pub open spec fn opt_string(t: Option<String>) -> Option<Seq<char>> {
    match t {
        Some(s) => Some(s@),
        None => None,
    }
}

/// The text that `serde_json` finds at the JSON pointer `pointer` in the
/// JSON text `json`, when the text is JSON and the pointer leads to a
/// string.
pub uninterp spec fn json_pointer_text(json: Seq<char>, pointer: Seq<char>) -> Option<Seq<char>>;

/// The length of the array that `serde_json` finds at the JSON pointer
/// `pointer` in the JSON text `json`, when the text is JSON and the
/// pointer leads to an array.
pub uninterp spec fn json_pointer_len(json: Seq<char>, pointer: Seq<char>) -> Option<usize>;

/// Whether `serde_json` finds a value at the JSON pointer `pointer` in the
/// JSON text `json`.
pub uninterp spec fn json_pointer_found(json: Seq<char>, pointer: Seq<char>) -> bool;

/// `serde_json::from_str::<Value>`, then `Value::pointer` and `Value::as_str`.
/// Trusted: the result is `json_pointer_text` of the text and the pointer.
#[verifier::external_body]
fn pointer_text(json: &str, pointer: &str) -> (r: Option<String>)
    ensures
        opt_string(r) == json_pointer_text(json@, pointer@),
{
    let v = serde_json::from_str::<serde_json::Value>(json).ok()?;
    v.pointer(pointer)?.as_str().map(String::from)
}

/// `serde_json::from_str::<Value>`, then `Value::pointer`, `Value::as_array`
/// and the array's length.
/// Trusted: the result is `json_pointer_len` of the text and the pointer.
#[verifier::external_body]
fn pointer_array_len(json: &str, pointer: &str) -> (r: Option<usize>)
    ensures
        r == json_pointer_len(json@, pointer@),
{
    let v = serde_json::from_str::<serde_json::Value>(json).ok()?;
    v.pointer(pointer)?.as_array().map(|a| a.len())
}

/// `serde_json::from_str::<Value>`, then whether `Value::pointer` finds a value.
/// Trusted: the result is `json_pointer_found` of the text and the pointer.
#[verifier::external_body]
fn pointer_found(json: &str, pointer: &str) -> (r: bool)
    ensures
        r == json_pointer_found(json@, pointer@),
{
    match serde_json::from_str::<serde_json::Value>(json) {
        Ok(v) => v.pointer(pointer).is_some(),
        Err(_) => false,
    }
}

/// A text, or the empty text.
pub open spec fn text_or_empty(t: Option<Seq<char>>) -> Seq<char> {
    match t {
        Some(s) => s,
        None => Seq::<char>::empty(),
    }
}

/// Where the videos of a playlist stand in a page's `ytInitialData`.
pub open spec fn playlist_videos_pointer() -> Seq<char> {
    "/contents/twoColumnBrowseResultsRenderer/tabs/0/tabRenderer/content/sectionListRenderer/contents/0/itemSectionRenderer/contents/0/playlistVideoListRenderer/contents"@
}

/// Where the title of a playlist stands in a page's `ytInitialData`.
pub open spec fn playlist_title_pointer() -> Seq<char> {
    "/header/pageHeaderRenderer/pageTitle"@
}

/// Where the `i`-th video of the playlist stands.
pub open spec fn video_item_pointer(i: nat) -> Seq<char> {
    playlist_videos_pointer().push('/') + decimal(i)
}

/// What a video's members are read from: its `playlistVideoRenderer`
/// member when it has one, else the item itself.
pub open spec fn video_pointer(json: Seq<char>, i: nat) -> Seq<char> {
    let renderer = video_item_pointer(i) + "/playlistVideoRenderer"@;
    if json_pointer_found(json, renderer) {
        renderer
    } else {
        video_item_pointer(i)
    }
}

/// The `i`-th video of the playlist: its `videoId`, the text of the first
/// run of its `title`, each an empty text when missing or not a string,
/// and its `lengthSeconds` when it is a string.
pub open spec fn video_entry(json: Seq<char>, i: nat) -> (Seq<char>, Seq<char>, Option<Seq<char>>) {
    let v = video_pointer(json, i);
    (
        text_or_empty(json_pointer_text(json, v + "/videoId"@)),
        text_or_empty(json_pointer_text(json, v + "/title/runs/0/text"@)),
        json_pointer_text(json, v + "/lengthSeconds"@),
    )
}

/// The playlist that the `ytInitialData` JSON text of a page holds: its
/// title (empty when missing) and its videos in order, when the videos
/// stand in an array; nothing otherwise.
pub open spec fn playlist_of(json: Seq<char>) -> Option<(Seq<char>, Seq<(Seq<char>, Seq<char>, Option<Seq<char>>)>)> {
    match json_pointer_len(json, playlist_videos_pointer()) {
        Some(n) => Some(
            (
                text_or_empty(json_pointer_text(json, playlist_title_pointer())),
                Seq::new(n as nat, |i: int| video_entry(json, i as nat)),
            ),
        ),
        None => None,
    }
}

/// The texts of what `fallback_playlist_entries` gives.
pub open spec fn playlist_view(r: Option<(String, Vec<(String, String, Option<String>)>)>) -> Option<
    (Seq<char>, Seq<(Seq<char>, Seq<char>, Option<Seq<char>>)>),
> {
    match r {
        Some((title, videos)) => Some(
            (
                title@,
                videos@.map_values(|v: (String, String, Option<String>)| (v.0@, v.1@, opt_string(v.2))),
            ),
        ),
        None => None,
    }
}

fn string_or_empty(t: Option<String>) -> (s: String)
    ensures
        s@ == text_or_empty(opt_string(t)),
{
    match t {
        Some(s) => s,
        None => String::new(),
    }
}

fn joined(a: &str, b: &str) -> (r: String)
    ensures
        r@ == a@ + b@,
{
    let mut r = owned(a);
    r.append(b);
    r
}

fn item_pointer(i: usize) -> (p: String)
    ensures
        p@ == video_item_pointer(i as nat),
{
    let mut p = owned(
        "/contents/twoColumnBrowseResultsRenderer/tabs/0/tabRenderer/content/sectionListRenderer/contents/0/itemSectionRenderer/contents/0/playlistVideoListRenderer/contents",
    );
    push_char(&mut p, '/');
    push_decimal(&mut p, i as u128);
    p
}

/// The `i`-th video of the playlist in the JSON text `json`, as
/// `video_entry` states.
fn read_video(json: &str, i: usize) -> (v: (String, String, Option<String>))
    ensures
        (v.0@, v.1@, opt_string(v.2)) == video_entry(json@, i as nat),
{
    let item = item_pointer(i);
    let renderer = joined(item.as_str(), "/playlistVideoRenderer");
    let base = if pointer_found(json, renderer.as_str()) {
        renderer
    } else {
        item
    };
    let id = string_or_empty(pointer_text(json, joined(base.as_str(), "/videoId").as_str()));
    let title = string_or_empty(pointer_text(json, joined(base.as_str(), "/title/runs/0/text").as_str()));
    let length = pointer_text(json, joined(base.as_str(), "/lengthSeconds").as_str());
    (id, title, length)
}

/// The playlist of a YouTube page read without `yt-dlp`: its title and its
/// videos (id, title, length text) from the page's `ytInitialData`, as
/// `playlist_of` states; `None` when the data is no JSON or its list of
/// videos is no array. Each lookup reads the JSON text anew.
pub fn fallback_playlist_entries(html: &str) -> (r: Option<(String, Vec<(String, String, Option<String>)>)>)
    ensures
        playlist_view(r) == playlist_of(initial_data_text(html@)),
{
    let json = initial_data_json(html);
    let videos_at = owned(
        "/contents/twoColumnBrowseResultsRenderer/tabs/0/tabRenderer/content/sectionListRenderer/contents/0/itemSectionRenderer/contents/0/playlistVideoListRenderer/contents",
    );
    let n = match pointer_array_len(json.as_str(), videos_at.as_str()) {
        Some(n) => n,
        None => {
            return None;
        },
    };
    let title = string_or_empty(pointer_text(json.as_str(), "/header/pageHeaderRenderer/pageTitle"));
    let mut videos: Vec<(String, String, Option<String>)> = Vec::new();
    let mut i: usize = 0;
    while i < n
        invariant
            i <= n,
            videos.len() == i,
            forall|j: int|
                0 <= j < i ==> {
                    let v = #[trigger] videos@[j];
                    (v.0@, v.1@, opt_string(v.2)) == video_entry(json@, j as nat)
                },
        decreases n - i,
    {
        let v = read_video(json.as_str(), i);
        videos.push(v);
        i += 1;
    }
    let r = Some((title, videos));
    assert(playlist_view(r) == playlist_of(json@)) by {
        let a = videos@.map_values(|v: (String, String, Option<String>)| (v.0@, v.1@, opt_string(v.2)));
        let b = Seq::new(n as nat, |i: int| video_entry(json@, i as nat));
        assert(a =~= b);
    }
    r
}

} // verus!
