//! What `serve` shows: the HTML page of the playlist and the start-up
//! banner.
use vstd::prelude::*;

use crate::text::{chars_of, decimal, i64_pad2, pad2, push_char, u64_to_decimal};

verus! {

/// The replacement text of a character in HTML text: `&`, `<` and `>` become
/// entities, every other character stays.
pub open spec fn escape_char(c: char) -> Seq<char> {
    if c == '&' {
        seq!['&', 'a', 'm', 'p', ';']
    } else if c == '<' {
        seq!['&', 'l', 't', ';']
    } else if c == '>' {
        seq!['&', 'g', 't', ';']
    } else {
        seq![c]
    }
}

/// A text with each character replaced as [`escape_char`] says.
pub open spec fn escaped(s: Seq<char>) -> Seq<char>
    decreases s.len(),
{
    if s.len() == 0 {
        seq![]
    } else {
        escaped(s.drop_last()) + escape_char(s.last())
    }
}

/// Makes a text safe to place between HTML tags.
pub fn html_escape(s: &str) -> (res: String)
    ensures
        res@ == escaped(s@),
{
    let v = chars_of(s);
    let mut out = String::new();
    let mut i: usize = 0;
    while i < v.len()
        invariant
            i <= v@.len(),
            v@ == s@,
            out@ == escaped(v@.take(i as int)),
        decreases v@.len() - i,
    {
        assert(v@.take(i + 1).drop_last() =~= v@.take(i as int));
        let c = v[i];
        if c == '&' {
            push_char(&mut out, '&');
            push_char(&mut out, 'a');
            push_char(&mut out, 'm');
            push_char(&mut out, 'p');
            push_char(&mut out, ';');
        } else if c == '<' {
            push_char(&mut out, '&');
            push_char(&mut out, 'l');
            push_char(&mut out, 't');
            push_char(&mut out, ';');
        } else if c == '>' {
            push_char(&mut out, '&');
            push_char(&mut out, 'g');
            push_char(&mut out, 't');
            push_char(&mut out, ';');
        } else {
            push_char(&mut out, c);
        }
        assert(out@ =~= escaped(v@.take(i + 1)));
        i = i + 1;
    }
    assert(v@.take(i as int) =~= s@);
    out
}

/// A downloaded track as the page lists it.
pub struct IndexTrack {
    pub youtube_id: String,
    pub position: i64,
    pub title: String,
}

/// The list item of one track: its number, its escaped title and a player
/// for its audio.
pub open spec fn index_row(t: IndexTrack) -> Seq<char> {
    "<li><span class=\"n\">"@ + pad2(t.position + 1) + "</span><span class=\"t\">"@ + escaped(
        t.title@,
    ) + "</span><audio controls preload=\"none\" src=\"/tracks/"@ + t.youtube_id@
        + "/audio\"></audio></li>\n"@
}

/// The list items of the tracks, in order.
pub open spec fn index_rows(tracks: Seq<IndexTrack>) -> Seq<char>
    decreases tracks.len(),
{
    if tracks.len() == 0 {
        seq![]
    } else {
        index_rows(tracks.drop_last()) + index_row(tracks.last())
    }
}

/// The start of the page, up to the title element's text.
pub const PAGE_HEAD: &'static str = "<!doctype html>\n<html>\n<head>\n<meta charset=\"utf-8\">\n<meta name=\"viewport\" content=\"width=device-width, initial-scale=1\">\n<title>";

/// From the end of the title element to the heading's text.
pub const PAGE_STYLE: &'static str = "</title>\n<style>\n  body { font-family: system-ui, sans-serif; background: #111; color: #eee; margin: 0; padding: 2rem 1rem; }\n  h1 { font-size: 1.4rem; }\n  ul { list-style: none; padding: 0; margin: 1.5rem 0 0; }\n  li { display: flex; align-items: center; gap: 0.75rem; padding: 0.6rem 0; border-bottom: 1px solid #333; flex-wrap: wrap; }\n  .n { color: #888; width: 2ch; text-align: right; }\n  .t { flex: 1; min-width: 10rem; }\n  audio { height: 32px; }\n</style>\n</head>\n<body>\n<h1>";

/// From the end of the heading to the list items.
pub const PAGE_LIST: &'static str = "</h1>\n<ul>\n";

/// The end of the page.
pub const PAGE_END: &'static str = "</ul>\n</body>\n</html>";

/// The title of a playlist whose title could not be read.
pub open spec fn page_title(title: Option<String>) -> Seq<char> {
    match title {
        Some(t) => t@,
        None => "yit"@,
    }
}

/// The page that `serve` answers at `/`.
pub open spec fn index_page(title: Option<String>, tracks: Seq<IndexTrack>) -> Seq<char> {
    let t = escaped(page_title(title));
    PAGE_HEAD@ + t + PAGE_STYLE@ + t + PAGE_LIST@ + index_rows(tracks) + PAGE_END@
}

/// Whether every track can be numbered (its position plus one fits).
pub open spec fn numberable(tracks: Seq<IndexTrack>) -> bool {
    forall|i: int| 0 <= i < tracks.len() ==> #[trigger] tracks[i].position < i64::MAX
}

/// The HTML page listing the downloaded tracks with a player each; the
/// title falls back to `yit` when it could not be read.
pub fn render_index(title: &Option<String>, tracks: &Vec<IndexTrack>) -> (res: String)
    requires
        numberable(tracks@),
    ensures
        res@ == index_page(*title, tracks@),
{
    let mut rows = String::new();
    let mut i: usize = 0;
    assert(tracks@.take(0) =~= seq![]);
    while i < tracks.len()
        invariant
            i <= tracks@.len(),
            numberable(tracks@),
            rows@ == index_rows(tracks@.take(i as int)),
        decreases tracks@.len() - i,
    {
        let t = &tracks[i];
        assert(t.position < i64::MAX);
        assert(tracks@.take(i + 1).drop_last() =~= tracks@.take(i as int));
        let number = i64_pad2(t.position + 1);
        let name = html_escape(t.title.as_str());
        rows.append("<li><span class=\"n\">");
        rows.append(number.as_str());
        rows.append("</span><span class=\"t\">");
        rows.append(name.as_str());
        rows.append("</span><audio controls preload=\"none\" src=\"/tracks/");
        rows.append(t.youtube_id.as_str());
        rows.append("/audio\"></audio></li>\n");
        assert(rows@ =~= index_rows(tracks@.take(i + 1)));
        i = i + 1;
    }
    assert(tracks@.take(i as int) =~= tracks@);
    let name = match title {
        Some(t) => html_escape(t.as_str()),
        None => html_escape("yit"),
    };
    let mut page = PAGE_HEAD.to_owned();
    page.append(name.as_str());
    page.append(PAGE_STYLE);
    page.append(name.as_str());
    page.append(PAGE_LIST);
    page.append(rows.as_str());
    page.append(PAGE_END);
    page
}

/// What `serve` prints once it listens.
pub open spec fn banner_of(title: Seq<char>, lan_ip: Option<String>, port: u16) -> Seq<Seq<char>> {
    let ip = match lan_ip {
        Some(a) => a@,
        None => "0.0.0.0"@,
    };
    seq![
        "yit server started"@,
        Seq::<char>::empty(),
        "Playlist: "@ + title,
        "Listening on:"@,
        "  http://"@ + ip + ":"@ + decimal(port as nat),
        "  http://localhost:"@ + decimal(port as nat),
        Seq::<char>::empty(),
        "Press Ctrl+C to stop."@,
    ]
}

/// The lines printed when the server starts: the playlist, and the LAN and
/// local addresses (`0.0.0.0` when the LAN address is unknown).
pub fn server_banner(title: &str, lan_ip: &Option<String>, port: u16) -> (res: Vec<String>)
    ensures
        res.deep_view() == banner_of(title@, *lan_ip, port),
{
    let port_text = u64_to_decimal(port as u64);
    let mut v: Vec<String> = Vec::new();
    v.push("yit server started".to_owned());
    v.push(String::new());
    let mut a = "Playlist: ".to_owned();
    a.append(title);
    v.push(a);
    v.push("Listening on:".to_owned());
    let mut b = "  http://".to_owned();
    match lan_ip {
        Some(ip) => b.append(ip.as_str()),
        None => b.append("0.0.0.0"),
    }
    b.append(":");
    b.append(port_text.as_str());
    v.push(b);
    let mut c = "  http://localhost:".to_owned();
    c.append(port_text.as_str());
    v.push(c);
    v.push(String::new());
    v.push("Press Ctrl+C to stop.".to_owned());
    assert(v.deep_view() =~= banner_of(title@, *lan_ip, port));
    v
}

/// HTML escaping leaves no tag delimiter: the escaped text has no `<` and
/// no `>`.
pub proof fn escaped_has_no_angle_brackets(s: Seq<char>)
    ensures
        !escaped(s).contains('<'),
        !escaped(s).contains('>'),
    decreases s.len(),
{
    if s.len() > 0 {
        escaped_has_no_angle_brackets(s.drop_last());
        let head = escaped(s.drop_last());
        let tail = escape_char(s.last());
        assert(escaped(s) == head + tail);
        assert(!tail.contains('<') && !tail.contains('>')) by {
            if tail.contains('<') {
                let j = choose|j: int| 0 <= j < tail.len() && tail[j] == '<';
            }
            if tail.contains('>') {
                let j = choose|j: int| 0 <= j < tail.len() && tail[j] == '>';
            }
        }
        assert forall|j: int| 0 <= j < escaped(s).len() implies escaped(s)[j] != '<' && escaped(
            s,
        )[j] != '>' by {
            if j < head.len() {
                assert(escaped(s)[j] == head[j]);
                assert(head[j] != '<' && head[j] != '>') by {
                    if head[j] == '<' { assert(head.contains('<')); }
                    if head[j] == '>' { assert(head.contains('>')); }
                }
            } else {
                assert(escaped(s)[j] == tail[j - head.len()]);
                let k: int = j - head.len();
                if tail[k] == '<' { assert(tail.contains('<')); }
                if tail[k] == '>' { assert(tail.contains('>')); }
            }
        }
    }
}

} // verus!
