use yit::commands::{
    check_clone_target, check_init_target, check_untrack_target, cloned_line, cloning_line,
    count_inserted, fetch_summary_line, fetching_line, init_summary, logged_in_line, tracking_line, new_tracks_line, playlist_list_line,
    require_playlist_id,
};
use yit::config::{config_path, AppConfig, Config, DEFAULT_CONFIG};
use yit::db::{db_dir, db_path, db_url, require_db_file, require_existing, sqlite_url};
use yit::error::YitError;

#[test]
fn database_location() {
    assert_eq!(db_dir("/p/PL1"), "/p/PL1/.yit");
    assert_eq!(db_path("/p/PL1"), "/p/PL1/.yit/yithub.db");
    assert_eq!(db_url("/p/PL1"), "sqlite:/p/PL1/.yit/yithub.db");
    assert_eq!(sqlite_url("/x/y.db"), "sqlite:/x/y.db");
}

#[test]
fn untracked_directory_is_refused() {
    match require_existing("/nonexistent/yit/test/dir") {
        Err(YitError::NotAPlaylist) => {}
        _ => panic!("expected NotAPlaylist"),
    }
    assert!(require_db_file(true).is_ok());
    assert_eq!(
        require_db_file(false).err().unwrap().message(),
        "Not a yit playlist (no yithub.db here). Run `yit init <url>` or `yit clone <url>` first."
    );
}

#[test]
fn configuration_paths() {
    assert_eq!(config_path("/home/u/.config"), "/home/u/.config/yit/config.toml");
    assert_eq!(DEFAULT_CONFIG, "download_path = \"~/Music/yit\"\nformat = \"opus\"\n");
    let cfg = AppConfig { download_path: "~/Music/yit".to_string(), format: "opus".to_string() };
    assert_eq!(cfg.download_path_expanded(&Some("/home/u".to_string())), "/home/u/Music/yit");
    let abs = AppConfig { download_path: "/srv/music".to_string(), format: "mp3".to_string() };
    assert_eq!(abs.download_path_expanded(&None), "/srv/music");
    let c = Config::default_for(&None, &Some("/home/u".to_string()));
    assert_eq!((c.download_path.as_str(), c.format.as_str()), ("/home/u/Music/yit", "opus"));
    let c = Config::default_for(&Some("/a".to_string()), &None);
    assert_eq!(c.download_path, "/a/yit");
}

#[test]
fn command_checks() {
    assert_eq!(require_playlist_id("https://youtube.com/playlist?list=PLq").ok(), Some("PLq".to_string()));
    assert_eq!(
        require_playlist_id("nope").err().unwrap().message(),
        "Invalid YouTube playlist URL or ID."
    );
    assert_eq!(check_clone_target("PL1", true).err().unwrap().message(), "Directory 'PL1' already exists.");
    assert!(check_clone_target("PL1", false).is_ok());
    assert_eq!(
        check_init_target(true).err().unwrap().message(),
        "Already a yit playlist (.yit/yithub.db exists)."
    );
    assert!(check_init_target(false).is_ok());
    assert_eq!(check_untrack_target(false).err().unwrap().message(), "Not a yit playlist (no yithub.db here).");
    assert!(check_untrack_target(true).is_ok());
}

#[test]
fn command_messages() {
    assert_eq!(cloning_line("PL1"), "Cloning PL1...");
    assert_eq!(cloned_line("PL1"), "Cloned into PL1/");
    assert_eq!(
        init_summary("Mix", 3),
        vec!["Initialized yit playlist: Mix", "  3 track(s) found. Run `yit sync` to download."]
    );
    assert_eq!(new_tracks_line(0), None);
    assert_eq!(new_tracks_line(2), Some("  2 new track(s)".to_string()));
    assert_eq!(playlist_list_line("PL1", "Mix", 10, 4), "PL1 [4/10] Mix");
    assert_eq!(count_inserted(&vec![1, 2, 1, 0]), 2);
    assert_eq!(fetch_summary_line(12, 3), "  12 tracks (3 new)");
    assert_eq!(tracking_line("Mix"), "Tracking: Mix");
    assert_eq!(fetching_line("Mix"), "Fetching: Mix");
    assert_eq!(logged_in_line("a@b.c"), "Logged in as a@b.c");
}

#[test]
fn error_messages() {
    let cases = vec![
        (YitError::YtDlpMissing, "yt-dlp not found. Install it with: pip install yt-dlp"),
        (YitError::NotLoggedIn, "Not logged in. Run `yit login` first."),
        (YitError::NoCallbackCode, "could not extract code from callback"),
        (YitError::UnreadablePlaylist { playlist_id: "P".to_string() }, "Failed to parse yt-dlp output for playlist 'P'"),
        (YitError::UnreadableConfig { path: "/c.toml".to_string() }, "Failed to parse /c.toml"),
        (YitError::RemoveFailed { path: "/d".to_string() }, "Failed to remove /d"),
    ];
    for (e, m) in cases {
        assert_eq!(e.message(), m);
    }
}
