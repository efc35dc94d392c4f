use yit::web::{html_escape, render_index, server_banner, IndexTrack, PAGE_END, PAGE_HEAD, PAGE_LIST, PAGE_STYLE};

#[test]
fn escaping_matches_chained_replace() {
    for s in ["", "plain", "a & b", "<b>x</b>", "&lt;", "&&<<>>", "é<ü>"] {
        let expected = s.replace('&', "&amp;").replace('<', "&lt;").replace('>', "&gt;");
        assert_eq!(html_escape(s), expected);
        assert!(!html_escape(s).contains('<') && !html_escape(s).contains('>'));
    }
}

#[test]
fn index_page() {
    let tracks = vec![
        IndexTrack { youtube_id: "v1".to_string(), position: 0, title: "A & B".to_string() },
        IndexTrack { youtube_id: "v2".to_string(), position: 9, title: "<C>".to_string() },
    ];
    let page = render_index(&Some("My <Mix>".to_string()), &tracks);
    let rows = "<li><span class=\"n\">01</span><span class=\"t\">A &amp; B</span><audio controls preload=\"none\" src=\"/tracks/v1/audio\"></audio></li>\n\
<li><span class=\"n\">10</span><span class=\"t\">&lt;C&gt;</span><audio controls preload=\"none\" src=\"/tracks/v2/audio\"></audio></li>\n";
    let t = "My &lt;Mix&gt;";
    assert_eq!(page, format!("{PAGE_HEAD}{t}{PAGE_STYLE}{t}{PAGE_LIST}{rows}{PAGE_END}"));
    assert!(page.starts_with("<!doctype html>\n<html>\n<head>\n"));
    assert!(page.contains("<title>My &lt;Mix&gt;</title>"));
    assert!(page.contains("<h1>My &lt;Mix&gt;</h1>\n<ul>\n<li>"));
    assert!(page.ends_with("</li>\n</ul>\n</body>\n</html>"));
}

#[test]
fn index_page_without_title() {
    let page = render_index(&None, &vec![]);
    assert!(page.contains("<title>yit</title>"));
    assert!(page.contains("<ul>\n</ul>"));
}

#[test]
fn banner() {
    assert_eq!(
        server_banner("Mix", &Some("192.168.1.5".to_string()), 8080),
        vec![
            "yit server started",
            "",
            "Playlist: Mix",
            "Listening on:",
            "  http://192.168.1.5:8080",
            "  http://localhost:8080",
            "",
            "Press Ctrl+C to stop.",
        ]
    );
    assert_eq!(server_banner("M", &None, 1)[4], "  http://0.0.0.0:1");
}

#[test]
fn escaping_round_trip_and_entities() {
    for s in ["", "plain", "a & b", "<b>&amp;</b>", "&&<<>>", "é<ü>&lt;"] {
        let e = html_escape(s);
        assert_eq!(e.replace("&lt;", "<").replace("&gt;", ">").replace("&amp;", "&"), s);
        for (i, _) in e.match_indices('&') {
            let rest = &e[i..];
            assert!(rest.starts_with("&amp;") || rest.starts_with("&lt;") || rest.starts_with("&gt;"));
        }
    }
    assert_eq!(html_escape("no specials here"), "no specials here");
}

#[test]
fn index_pages_differ_only_in_titles() {
    let tracks = |a: &str, b: &str| {
        vec![
            IndexTrack { youtube_id: "v1".to_string(), position: 0, title: a.to_string() },
            IndexTrack { youtube_id: "v2".to_string(), position: 4, title: b.to_string() },
        ]
    };
    let pa = render_index(&Some("TitleQ".to_string()), &tracks("TrackQ1", "TrackQ2"));
    let pb = render_index(&Some("<Z&>".to_string()), &tracks("Zed <1>", "Zed & 2"));
    let ha = pa.replace("TitleQ", "#T#").replace("TrackQ1", "#1#").replace("TrackQ2", "#2#");
    let hb = pb
        .replace("&lt;Z&amp;&gt;", "#T#")
        .replace("Zed &lt;1&gt;", "#1#")
        .replace("Zed &amp; 2", "#2#");
    assert_eq!(ha, hb);
    assert!(!pb.contains("<Z") && !pb.contains("<1>"));
}
