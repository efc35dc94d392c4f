use yit::playlist::{
    added_count, diff_remote, download_step, downloads_header, pull_header, pull_step, pull_step_line, DownloadStep, PullStep, RunOutcome, diff_report, download_args, download_outcome, outcome_line,
    output_template, playlist_row, progress_line, upsert_rows, DiffEntry, DownloadResult, TrackDiff,
};
use yit::status::{status_header, status_lines, status_report, StatusReport};
use yit::youtube::{PlaylistEntry, PlaylistInfo, Thumbnail};

fn entry(id: &str, title: &str) -> PlaylistEntry {
    PlaylistEntry {
        id: id.to_string(),
        title: title.to_string(),
        uploader: Some(format!("up-{id}")),
        thumbnails: Some(vec![
            Thumbnail { url: format!("small-{id}") },
            Thumbnail { url: format!("big-{id}") },
        ]),
    }
}

fn info(entries: Vec<PlaylistEntry>) -> PlaylistInfo {
    PlaylistInfo {
        id: "PLlist".to_string(),
        title: "Mix".to_string(),
        thumbnails: Some(vec![Thumbnail { url: "cover".to_string() }]),
        entries,
    }
}

fn local(id: &str, title: &str, position: i64) -> DiffEntry {
    DiffEntry { youtube_id: id.to_string(), title: title.to_string(), position }
}

fn summary(v: &[DiffEntry]) -> Vec<(String, String, i64)> {
    v.iter().map(|e| (e.youtube_id.clone(), e.title.clone(), e.position)).collect()
}

#[test]
fn diff_finds_new_and_removed() {
    let remote = info(vec![
        entry("a", "A"),
        entry("x", "[Deleted video]"),
        entry("c", "C"),
        entry("y", "[Private video]"),
    ]);
    let here = vec![local("a", "A", 0), local("b", "B", 1)];
    let d = diff_remote(&here, &remote);
    assert_eq!(summary(&d.new), vec![("c".to_string(), "C".to_string(), 2)]);
    assert_eq!(summary(&d.removed), vec![("b".to_string(), "B".to_string(), 1)]);
}

#[test]
fn diff_placeholder_does_not_keep_a_local_track() {
    // A local track whose video is now only a placeholder counts as removed.
    let remote = info(vec![entry("a", "[Private video]")]);
    let d = diff_remote(&vec![local("a", "A", 0)], &remote);
    assert!(d.new.is_empty());
    assert_eq!(summary(&d.removed), vec![("a".to_string(), "A".to_string(), 0)]);
}

#[test]
fn diff_of_identical_is_empty() {
    let remote = info(vec![entry("a", "A"), entry("b", "B")]);
    let d = diff_remote(&vec![local("a", "A", 0), local("b", "B", 1)], &remote);
    assert!(d.new.is_empty() && d.removed.is_empty());
    assert_eq!(diff_report(&d), vec!["No changes."]);
}

#[test]
fn diff_report_lines() {
    let d = TrackDiff { new: vec![local("c", "C", 2)], removed: vec![local("b", "B", 11)] };
    assert_eq!(
        diff_report(&d),
        vec![
            "+ 03 - C",
            "  https://www.youtube.com/watch?v=c",
            "",
            "- 12 - B",
            "  local file preserved",
            "",
        ]
    );
}

#[test]
fn upsert_rows_skip_placeholders() {
    let remote = info(vec![entry("a", "A"), entry("x", "[Deleted video]"), entry("c", "C")]);
    let rows = upsert_rows(&remote);
    let got: Vec<(String, String, Option<String>, i64, Option<String>)> = rows
        .iter()
        .map(|r| (r.youtube_id.clone(), r.title.clone(), r.uploader.clone(), r.position, r.thumbnail.clone()))
        .collect();
    assert_eq!(
        got,
        vec![
            ("a".to_string(), "A".to_string(), Some("up-a".to_string()), 0, Some("big-a".to_string())),
            ("c".to_string(), "C".to_string(), Some("up-c".to_string()), 2, Some("big-c".to_string())),
        ]
    );
}

#[test]
fn synced_playlist_shows_nothing_new() {
    let remote = info(vec![entry("a", "A"), entry("x", "[Deleted video]"), entry("c", "C")]);
    let rows = upsert_rows(&remote);
    let mut here: Vec<DiffEntry> = vec![local("old", "Old", 5)];
    here.extend(rows.iter().map(|r| local(&r.youtube_id, &r.title, r.position)));
    let d0 = diff_remote(&vec![local("old", "Old", 5), local("c", "C old", 9)], &remote);
    let d = diff_remote(&here, &remote);
    assert!(d.new.is_empty());
    assert_eq!(summary(&d.removed), vec![("old".to_string(), "Old".to_string(), 5)]);
    assert_eq!(summary(&d.removed), summary(&d0.removed));
    let ids: Vec<String> = here.iter().map(|t| t.youtube_id.clone()).collect();
    let r = status_report(&ids, &remote, 2);
    assert_eq!(r.new, 0);
    assert_eq!(r.removed, 1);
}

#[test]
fn status_counts() {
    let remote = info(vec![
        entry("a", "A"),
        entry("x", "[Deleted video]"),
        entry("c", "C"),
        entry("c", "C"),
    ]);
    let ids = vec!["a".to_string(), "b".to_string(), "b".to_string()];
    let r = status_report(&ids, &remote, 7);
    assert_eq!((r.local_done, r.remote, r.new, r.removed), (7, 3, 2, 1));
}

#[test]
fn status_agrees_with_diff() {
    let remote = info(vec![entry("a", "A"), entry("c", "C"), entry("d", "[Private video]")]);
    let here = vec![local("a", "A", 0), local("b", "B", 1), local("z", "Z", 2)];
    let ids: Vec<String> = here.iter().map(|t| t.youtube_id.clone()).collect();
    let d = diff_remote(&here, &remote);
    let r = status_report(&ids, &remote, 0);
    assert_eq!(r.new, d.new.len());
    assert_eq!(r.removed, d.removed.len());
}

#[test]
fn status_text() {
    assert_eq!(status_header("Mix", "https://x"), vec!["Playlist: Mix", "Remote:   https://x", ""]);
    let r = StatusReport { local_done: 12, remote: 14, new: 2, removed: 0 };
    assert_eq!(
        status_lines(&r),
        vec![
            "Tracks",
            "  12 local",
            "  14 remote",
            "",
            "Changes:",
            "",
            "  + 2 new",
            "  - 0 removed",
            "",
            "Use 'yit sync' to update.",
        ]
    );
    let quiet = StatusReport { local_done: 0, remote: 0, new: 0, removed: 0 };
    assert_eq!(status_lines(&quiet).last().unwrap(), "Up to date.");
}

#[test]
fn playlist_row_of_fetch() {
    let row = playlist_row(&info(vec![]), "https://youtube.com/playlist?list=PLlist");
    assert_eq!(row.youtube_id, "PLlist");
    assert_eq!(row.title, "Mix");
    assert_eq!(row.thumbnail, Some("cover".to_string()));
    assert_eq!(row.remote_url, "https://youtube.com/playlist?list=PLlist");
}

#[test]
fn added_count_difference() {
    assert_eq!(added_count(3, 5), 2);
    assert_eq!(added_count(5, 5), 0);
    assert_eq!(added_count(5, 4), u32::MAX);
}

#[test]
fn download_plan() {
    assert_eq!(output_template("music", 0), "music/01 - %(title)s.%(ext)s");
    assert_eq!(output_template("music", 99), "music/100 - %(title)s.%(ext)s");
    assert_eq!(
        download_args("opus", "t", "vid"),
        vec![
            "-x",
            "--audio-format",
            "opus",
            "--audio-quality",
            "0",
            "--quiet",
            "--no-warnings",
            "--print",
            "after_move:filepath",
            "-o",
            "t",
            "https://www.youtube.com/watch?v=vid",
        ]
    );
    assert_eq!(progress_line("Song"), "  Song ... ");
}

#[test]
fn download_outcomes() {
    match download_outcome(true, "  /m/01 - a.opus\n", "") {
        DownloadResult::Done { filename } => assert_eq!(filename, "/m/01 - a.opus"),
        _ => panic!("expected done"),
    }
    let failed = download_outcome(false, "", "WARNING: x\nERROR: unavailable\n");
    match &failed {
        DownloadResult::Failed { error } => assert_eq!(error, "ERROR: unavailable"),
        _ => panic!("expected failure"),
    }
    assert_eq!(outcome_line(&failed), "error: ERROR: unavailable");
    assert_eq!(outcome_line(&DownloadResult::Done { filename: "f".to_string() }), "done");
    match download_outcome(false, "", "") {
        DownloadResult::Failed { error } => assert_eq!(error, "unknown error"),
        _ => panic!("expected failure"),
    }
}

#[test]
fn download_loop_steps() {
    match download_step(7, RunOutcome::NotStarted) {
        DownloadStep::Stop { error } => {
            assert_eq!(error.message(), "yt-dlp not found. Install it with: pip install yt-dlp")
        }
        _ => panic!("expected a stop"),
    }
    let ok = RunOutcome::Finished { success: true, stdout: "/m/01 - a.opus\n".to_string(), stderr: String::new() };
    match download_step(7, ok) {
        DownloadStep::Record { track_id, result: DownloadResult::Done { filename }, line } => {
            assert_eq!((track_id, filename.as_str(), line.as_str()), (7, "/m/01 - a.opus", "done"));
        }
        _ => panic!("expected a recorded success"),
    }
    let bad = RunOutcome::Finished { success: false, stdout: String::new(), stderr: "ERROR: gone\n".to_string() };
    match download_step(8, bad) {
        DownloadStep::Record { track_id, result: DownloadResult::Failed { error }, line } => {
            assert_eq!((track_id, error.as_str(), line.as_str()), (8, "ERROR: gone", "error: ERROR: gone"));
        }
        _ => panic!("expected a recorded failure"),
    }
    assert_eq!(downloads_header(0), None);
    assert_eq!(downloads_header(3), Some("Downloading:".to_string()));
}

#[test]
fn pull_loop_steps() {
    assert!(matches!(pull_step(RunOutcome::NotStarted), PullStep::Stop { .. }));
    let done = pull_step(RunOutcome::Finished { success: true, stdout: "x".to_string(), stderr: String::new() });
    assert!(matches!(done, PullStep::Done));
    assert_eq!(pull_step_line(&done), Some("done".to_string()));
    let failed = pull_step(RunOutcome::Finished { success: false, stdout: String::new(), stderr: "a\nbad\n".to_string() });
    match &failed {
        PullStep::Failed { error } => assert_eq!(error, "bad"),
        _ => panic!("expected failure"),
    }
    assert_eq!(pull_step_line(&failed), Some("error: bad".to_string()));
    assert_eq!(pull_header(0), ("Nothing to download.".to_string(), false));
    assert_eq!(pull_header(2), ("2 track(s) to download.".to_string(), true));
}
