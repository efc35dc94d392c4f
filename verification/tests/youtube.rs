use yit::api::{default_thumbnail_url, first_playlist_item, playlist_query, PlaylistItem, PlaylistSnippet, Thumbnails};
use yit::error::YitError;
use yit::youtube::{
    extract_playlist_id, failure_detail, fetch_args, fetch_failure, playlist_id_from, thumbnail_url,
    title_is_unavailable, watch_url, Thumbnail,
};

fn thumbs(urls: &[&str]) -> Option<Vec<Thumbnail>> {
    Some(urls.iter().map(|u| Thumbnail { url: u.to_string() }).collect())
}

#[test]
fn playlist_id_from_url_list_parameter() {
    assert_eq!(
        extract_playlist_id("https://youtube.com/playlist?list=PLxxxxxxx"),
        Some("PLxxxxxxx".to_string())
    );
    assert_eq!(
        extract_playlist_id("https://www.youtube.com/watch?v=abc&list=PL123&index=2"),
        Some("PL123".to_string())
    );
}

#[test]
fn playlist_id_first_list_parameter_wins_and_is_decoded() {
    assert_eq!(
        extract_playlist_id("https://youtube.com/playlist?list=A%20B&list=C"),
        Some("A B".to_string())
    );
}

#[test]
fn playlist_id_bare() {
    assert_eq!(extract_playlist_id("PLabcdefghijk"), Some("PLabcdefghijk".to_string()));
}

#[test]
fn playlist_id_bare_too_short_or_wrong_prefix() {
    assert_eq!(extract_playlist_id("PLabcdefgh"), None);
    assert_eq!(extract_playlist_id("PLabcdefghi"), Some("PLabcdefghi".to_string()));
    assert_eq!(extract_playlist_id("XXabcdefghijk"), None);
    assert_eq!(extract_playlist_id(""), None);
}

#[test]
fn playlist_id_url_without_list_falls_back() {
    assert_eq!(extract_playlist_id("https://youtube.com/watch?v=abc"), None);
}

#[test]
fn playlist_id_from_given_pairs() {
    let pairs = Some(vec![("v".to_string(), "x".to_string()), ("list".to_string(), "L1".to_string())]);
    assert_eq!(playlist_id_from("whatever", &pairs), Some("L1".to_string()));
    let no_list = Some(vec![("v".to_string(), "x".to_string())]);
    assert_eq!(playlist_id_from("PLabcdefghijk", &no_list), Some("PLabcdefghijk".to_string()));
    assert_eq!(playlist_id_from("short", &None), None);
}

#[test]
fn thumbnail_is_the_last_one() {
    assert_eq!(thumbnail_url(&thumbs(&["a", "b", "c"])), Some("c".to_string()));
    assert_eq!(thumbnail_url(&thumbs(&[])), None);
    assert_eq!(thumbnail_url(&None), None);
}

#[test]
fn placeholder_titles() {
    assert!(title_is_unavailable(&"[Deleted video]".to_string()));
    assert!(title_is_unavailable(&"[Private video]".to_string()));
    assert!(!title_is_unavailable(&"[Deleted video] ".to_string()));
    assert!(!title_is_unavailable(&"song".to_string()));
}

#[test]
fn fetch_arguments() {
    assert_eq!(
        fetch_args("PL1"),
        vec!["-J", "--flat-playlist", "--no-warnings", "https://www.youtube.com/playlist?list=PL1"]
    );
    assert_eq!(watch_url("abc"), "https://www.youtube.com/watch?v=abc");
}

#[test]
fn failure_detail_is_last_line() {
    assert_eq!(failure_detail("a\nb\n"), "b");
    assert_eq!(failure_detail("a\nERROR: gone\r\n"), "ERROR: gone");
    assert_eq!(failure_detail(""), "unknown error");
    match fetch_failure("PL9", "x\ny") {
        YitError::FetchFailed { playlist_id, detail } => {
            assert_eq!(playlist_id, "PL9");
            assert_eq!(detail, "y");
        }
        _ => panic!("wrong error"),
    }
    assert_eq!(
        fetch_failure("PL9", "").message(),
        "yt-dlp failed to fetch playlist 'PL9': unknown error"
    );
}

fn item(id: &str) -> PlaylistItem {
    PlaylistItem {
        id: id.to_string(),
        snippet: PlaylistSnippet {
            title: "t".to_string(),
            description: String::new(),
            thumbnails: Thumbnails { default: Some(yit::api::Thumbnail { url: "u".to_string() }) },
        },
    }
}

#[test]
fn first_item_of_response() {
    let got = first_playlist_item(Some(vec![item("a"), item("b")]), "X").ok().unwrap();
    assert_eq!(got.id, "a");
    match first_playlist_item(Some(vec![]), "X") {
        Err(e) => assert_eq!(e.message(), "Playlist 'X' not found on YouTube"),
        Ok(_) => panic!("expected an error"),
    }
    assert!(first_playlist_item(None, "X").is_err());
    assert_eq!(default_thumbnail_url(&item("a").snippet.thumbnails), Some("u".to_string()));
    assert_eq!(default_thumbnail_url(&Thumbnails { default: None }), None);
    assert_eq!(
        playlist_query("P"),
        vec![("part".to_string(), "snippet".to_string()), ("id".to_string(), "P".to_string())]
    );
}
