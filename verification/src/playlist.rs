//! The local track table against a freshly fetched playlist.
use vstd::prelude::*;

use crate::error::YitError;
use crate::paths::{join_path, joined_path};
use crate::text::{decimal, i64_pad2, pad2, trim, trimmed, u64_to_decimal};
use crate::youtube::{
    failure_detail, failure_detail_of, is_unavailable, last_thumbnail, thumbnail_url,
    title_is_unavailable, watch_url, watch_url_of, PlaylistEntry, PlaylistInfo,
};

verus! {

/// One track in a comparison: its video id, its title and its position in
/// the playlist (counted from zero).
pub struct DiffEntry {
    pub youtube_id: String,
    pub title: String,
    pub position: i64,
}

/// What a fetched playlist has that the local table lacks (`new`), and what
/// the local table has that the playlist no longer lists (`removed`).
pub struct TrackDiff {
    pub new: Vec<DiffEntry>,
    pub removed: Vec<DiffEntry>,
}

/// A track as plain values.
pub struct TrackView {
    pub youtube_id: Seq<char>,
    pub title: Seq<char>,
    pub position: i64,
}

impl View for DiffEntry {
    type V = TrackView;

    open spec fn view(&self) -> TrackView {
        TrackView { youtube_id: self.youtube_id@, title: self.title@, position: self.position }
    }
}

/// The tracks of a list, as plain values.
pub open spec fn track_views(tracks: Seq<DiffEntry>) -> Seq<TrackView> {
    tracks.map_values(|t: DiffEntry| t@)
}

/// The video ids of a list of tracks.
pub open spec fn ids_of(tracks: Seq<DiffEntry>) -> Seq<Seq<char>> {
    tracks.map_values(|t: DiffEntry| t.youtube_id@)
}

/// Whether the playlist lists a video with this id (deleted and private
/// placeholders do not count).
pub open spec fn is_listed(entries: Seq<PlaylistEntry>, id: Seq<char>) -> bool {
    exists|i: int| 0 <= i < entries.len() && !is_unavailable(entries[i].title@) && entries[i].id@ == id
}

/// Among the first `n` playlist entries, those that are available and whose
/// id is not in `local`, each with its index as position, in playlist order.
pub open spec fn new_tracks(local: Seq<DiffEntry>, entries: Seq<PlaylistEntry>, n: nat) -> Seq<TrackView>
    decreases n,
{
    if n == 0 {
        seq![]
    } else {
        let prev = new_tracks(local, entries, (n - 1) as nat);
        let e = entries[n - 1];
        if !is_unavailable(e.title@) && !ids_of(local).contains(e.id@) {
            prev.push(TrackView { youtube_id: e.id@, title: e.title@, position: (n - 1) as i64 })
        } else {
            prev
        }
    }
}

/// Among the first `n` local tracks, those that the playlist no longer lists,
/// in local order.
pub open spec fn removed_tracks(local: Seq<DiffEntry>, entries: Seq<PlaylistEntry>, n: nat) -> Seq<TrackView>
    decreases n,
{
    if n == 0 {
        seq![]
    } else {
        let prev = removed_tracks(local, entries, (n - 1) as nat);
        if !is_listed(entries, local[n - 1].youtube_id@) {
            prev.push(local[n - 1]@)
        } else {
            prev
        }
    }
}

/// Whether a local track carries this video id.
fn has_local_id(local: &Vec<DiffEntry>, id: &String) -> (res: bool)
    ensures
        res == ids_of(local@).contains(id@),
{
    let mut i: usize = 0;
    while i < local.len()
        invariant
            i <= local@.len(),
            forall|j: int| 0 <= j < i ==> local@[j].youtube_id@ != id@,
        decreases local@.len() - i,
    {
        if local[i].youtube_id == *id {
            assert(ids_of(local@)[i as int] == id@);
            return true;
        }
        i = i + 1;
    }
    assert(!ids_of(local@).contains(id@)) by {
        if ids_of(local@).contains(id@) {
            let j = choose|j: int| 0 <= j < ids_of(local@).len() && ids_of(local@)[j] == id@;
            assert(local@[j].youtube_id@ == id@);
        }
    }
    false
}

/// Whether the playlist lists an available video with this id.
pub(crate) fn listed_remotely(entries: &Vec<PlaylistEntry>, id: &String) -> (res: bool)
    ensures
        res == is_listed(entries@, id@),
{
    let mut i: usize = 0;
    while i < entries.len()
        invariant
            i <= entries@.len(),
            forall|j: int|
                0 <= j < i ==> is_unavailable(#[trigger] entries@[j].title@) || entries@[j].id@ != id@,
        decreases entries@.len() - i,
    {
        if !title_is_unavailable(&entries[i].title) && entries[i].id == *id {
            return true;
        }
        i = i + 1;
    }
    false
}

/// Compares the local tracks with a fetched playlist. Deleted and private
/// placeholders are left out on the remote side; nothing is changed.
pub fn diff_remote(local: &Vec<DiffEntry>, info: &PlaylistInfo) -> (res: TrackDiff)
    ensures
        track_views(res.new@) == new_tracks(local@, info.entries@, info.entries@.len()),
        track_views(res.removed@) == removed_tracks(local@, info.entries@, local@.len()),
{
    let mut new: Vec<DiffEntry> = Vec::new();
    let mut i: usize = 0;
    while i < info.entries.len()
        invariant
            i <= info.entries@.len(),
            track_views(new@) == new_tracks(local@, info.entries@, i as nat),
        decreases info.entries@.len() - i,
    {
        let entry = &info.entries[i];
        if !title_is_unavailable(&entry.title) && !has_local_id(local, &entry.id) {
            new.push(
                DiffEntry {
                    youtube_id: entry.id.clone(),
                    title: entry.title.clone(),
                    position: i as i64,
                },
            );
        }
        assert(track_views(new@) =~= new_tracks(local@, info.entries@, (i + 1) as nat));
        i = i + 1;
    }
    let mut removed: Vec<DiffEntry> = Vec::new();
    let mut k: usize = 0;
    while k < local.len()
        invariant
            k <= local@.len(),
            track_views(removed@) == removed_tracks(local@, info.entries@, k as nat),
        decreases local@.len() - k,
    {
        let track = &local[k];
        if !listed_remotely(&info.entries, &track.youtube_id) {
            removed.push(
                DiffEntry {
                    youtube_id: track.youtube_id.clone(),
                    title: track.title.clone(),
                    position: track.position,
                },
            );
        }
        assert(track_views(removed@) =~= removed_tracks(local@, info.entries@, (k + 1) as nat));
        k = k + 1;
    }
    TrackDiff { new, removed }
}

/// A row of the local track table, as a sync writes it.
pub struct TrackRow {
    pub youtube_id: String,
    pub title: String,
    pub uploader: Option<String>,
    pub position: i64,
    pub thumbnail: Option<String>,
}

/// A track row as plain values.
pub struct TrackRowView {
    pub youtube_id: Seq<char>,
    pub title: Seq<char>,
    pub uploader: Option<Seq<char>>,
    pub position: i64,
    pub thumbnail: Option<Seq<char>>,
}

impl View for TrackRow {
    type V = TrackRowView;

    open spec fn view(&self) -> TrackRowView {
        TrackRowView {
            youtube_id: self.youtube_id@,
            title: self.title@,
            uploader: self.uploader.deep_view(),
            position: self.position,
            thumbnail: self.thumbnail.deep_view(),
        }
    }
}

/// Track rows as plain values.
pub open spec fn row_views(rows: Seq<TrackRow>) -> Seq<TrackRowView> {
    rows.map_values(|r: TrackRow| r@)
}

/// The rows that a sync writes for the first `n` playlist entries: one per
/// available entry, in playlist order, with the entry's index as position
/// and its last thumbnail.
pub open spec fn synced_rows(entries: Seq<PlaylistEntry>, n: nat) -> Seq<TrackRowView>
    decreases n,
{
    if n == 0 {
        seq![]
    } else {
        let prev = synced_rows(entries, (n - 1) as nat);
        let e = entries[n - 1];
        if is_unavailable(e.title@) {
            prev
        } else {
            prev.push(
                TrackRowView {
                    youtube_id: e.id@,
                    title: e.title@,
                    uploader: e.uploader.deep_view(),
                    position: (n - 1) as i64,
                    thumbnail: last_thumbnail(e.thumbnails),
                },
            )
        }
    }
}

fn copy_text(o: &Option<String>) -> (res: Option<String>)
    ensures
        res.deep_view() == o.deep_view(),
{
    match o {
        Some(s) => Some(s.clone()),
        None => None,
    }
}

/// The rows to insert or update in the local track table for a fetched
/// playlist. A row whose video id is already in the table replaces its
/// title, position and thumbnail; a new id adds a row.
pub fn upsert_rows(info: &PlaylistInfo) -> (res: Vec<TrackRow>)
    ensures
        row_views(res@) == synced_rows(info.entries@, info.entries@.len()),
{
    let mut rows: Vec<TrackRow> = Vec::new();
    let mut i: usize = 0;
    while i < info.entries.len()
        invariant
            i <= info.entries@.len(),
            row_views(rows@) == synced_rows(info.entries@, i as nat),
        decreases info.entries@.len() - i,
    {
        let entry = &info.entries[i];
        if !title_is_unavailable(&entry.title) {
            rows.push(
                TrackRow {
                    youtube_id: entry.id.clone(),
                    title: entry.title.clone(),
                    uploader: copy_text(&entry.uploader),
                    position: i as i64,
                    thumbnail: thumbnail_url(&entry.thumbnails),
                },
            );
        }
        assert(row_views(rows@) =~= synced_rows(info.entries@, (i + 1) as nat));
        i = i + 1;
    }
    rows
}

/// The single row of the playlist table.
pub struct PlaylistRow {
    pub youtube_id: String,
    pub title: String,
    pub thumbnail: Option<String>,
    pub remote_url: String,
}

/// The playlist row that a fetch records: the playlist's id, title and last
/// thumbnail, and the URL it was tracked from.
pub fn playlist_row(info: &PlaylistInfo, remote_url: &str) -> (res: PlaylistRow)
    ensures
        res.youtube_id@ == info.id@,
        res.title@ == info.title@,
        res.thumbnail.deep_view() == last_thumbnail(info.thumbnails),
        res.remote_url@ == remote_url@,
{
    PlaylistRow {
        youtube_id: info.id.clone(),
        title: info.title.clone(),
        thumbnail: thumbnail_url(&info.thumbnails),
        remote_url: remote_url.to_owned(),
    }
}

/// How many tracks a sync added, from the row counts before and after it.
pub fn added_count(before: i64, after: i64) -> (res: u32)
    requires
        i64::MIN <= after - before <= i64::MAX,
    ensures
        res == (after - before) as u32,
{
    (after - before) as u32
}

/// The name pattern of a downloaded track: its number in the playlist
/// (position plus one, two digits at least), then `yt-dlp`'s title and
/// extension fields.
pub open spec fn output_name_of(position: i64) -> Seq<char> {
    pad2(position + 1) + " - %(title)s.%(ext)s"@
}

/// The output template handed to `yt-dlp` for a track in `dir`.
pub fn output_template(dir: &str, position: i64) -> (res: String)
    requires
        position < i64::MAX,
    ensures
        res@ == joined_path(dir@, output_name_of(position)),
{
    let mut name = i64_pad2(position + 1);
    name.append(" - %(title)s.%(ext)s");
    join_path(dir, name.as_str())
}

/// The arguments of the `yt-dlp` run that downloads one track as audio in
/// the configured format and prints where the file went.
pub fn download_args(format: &str, template: &str, video_id: &str) -> (res: Vec<String>)
    ensures
        res.deep_view() == seq![
            "-x"@,
            "--audio-format"@,
            format@,
            "--audio-quality"@,
            "0"@,
            "--quiet"@,
            "--no-warnings"@,
            "--print"@,
            "after_move:filepath"@,
            "-o"@,
            template@,
            watch_url_of(video_id@),
        ],
{
    let mut v: Vec<String> = Vec::new();
    v.push("-x".to_owned());
    v.push("--audio-format".to_owned());
    v.push(format.to_owned());
    v.push("--audio-quality".to_owned());
    v.push("0".to_owned());
    v.push("--quiet".to_owned());
    v.push("--no-warnings".to_owned());
    v.push("--print".to_owned());
    v.push("after_move:filepath".to_owned());
    v.push("-o".to_owned());
    v.push(template.to_owned());
    v.push(watch_url(video_id));
    assert(v.deep_view() =~= seq![
        "-x"@,
        "--audio-format"@,
        format@,
        "--audio-quality"@,
        "0"@,
        "--quiet"@,
        "--no-warnings"@,
        "--print"@,
        "after_move:filepath"@,
        "-o"@,
        template@,
        watch_url_of(video_id@),
    ]);
    v
}

/// The arguments of the API-based client's `yt-dlp` run that downloads one
/// track as audio in the configured format.
pub fn pull_args(format: &str, template: &str, video_id: &str) -> (res: Vec<String>)
    ensures
        res.deep_view() == seq![
            "-x"@,
            "--audio-format"@,
            format@,
            "--audio-quality"@,
            "0"@,
            "-o"@,
            template@,
            watch_url_of(video_id@),
        ],
{
    let mut v: Vec<String> = Vec::new();
    v.push("-x".to_owned());
    v.push("--audio-format".to_owned());
    v.push(format.to_owned());
    v.push("--audio-quality".to_owned());
    v.push("0".to_owned());
    v.push("-o".to_owned());
    v.push(template.to_owned());
    v.push(watch_url(video_id));
    assert(v.deep_view() =~= seq![
        "-x"@,
        "--audio-format"@,
        format@,
        "--audio-quality"@,
        "0"@,
        "-o"@,
        template@,
        watch_url_of(video_id@),
    ]);
    v
}

/// The output template of the API-based client: files named after the
/// video title in the download directory.
pub fn pull_template(download_dir: &str) -> (res: String)
    ensures
        res@ == joined_path(download_dir@, "%(title)s.%(ext)s"@),
{
    join_path(download_dir, "%(title)s.%(ext)s")
}

/// What a download run leaves in the track table.
pub enum DownloadResult {
    /// The track is on disk under `filename`.
    Done { filename: String },
    /// The run failed with this message.
    Failed { error: String },
}

/// The new state of a track after its download run: on success the path
/// that `yt-dlp` printed, without surrounding white space; on failure the
/// last line of its error stream.
pub fn download_outcome(success: bool, stdout: &str, stderr: &str) -> (res: DownloadResult)
    ensures
        success ==> (res matches DownloadResult::Done { filename } && filename@ == trimmed(stdout@)),
        !success ==> (res matches DownloadResult::Failed { error } && error@ == failure_detail_of(
            stderr@,
        )),
{
    if success {
        DownloadResult::Done { filename: trim(stdout) }
    } else {
        DownloadResult::Failed { error: failure_detail(stderr) }
    }
}

/// The word printed after a track's name once its download run ended.
pub fn outcome_line(result: &DownloadResult) -> (res: String)
    ensures
        result matches DownloadResult::Done { .. } ==> res@ == "done"@,
        result matches DownloadResult::Failed { error } ==> res@ == "error: "@ + error@,
{
    match result {
        DownloadResult::Done { .. } => "done".to_owned(),
        DownloadResult::Failed { error } => {
            let mut s = "error: ".to_owned();
            s.append(error.as_str());
            s
        },
    }
}

/// How a track's download run went.
pub enum RunOutcome {
    /// The `yt-dlp` program could not be started.
    NotStarted,
    /// `yt-dlp` ran to its end; `success` is its exit status.
    Finished { success: bool, stdout: String, stderr: String },
}

/// What the download loop does after one track's run.
pub enum DownloadStep {
    /// Record the result in the track's row, print `line`, go on.
    Record { track_id: i64, result: DownloadResult, line: String },
    /// Stop the loop with this failure.
    Stop { error: YitError },
}

/// One step of the download loop: a run that could not start stops the
/// loop with `YtDlpMissing`; a finished run, failed or not, is recorded in
/// the track's row with its printed word, and the loop goes on.
pub fn download_step(track_id: i64, run: RunOutcome) -> (res: DownloadStep)
    ensures
        run is NotStarted ==> res == (DownloadStep::Stop { error: YitError::YtDlpMissing }),
        run matches RunOutcome::Finished { success, stdout, stderr } ==> (res matches DownloadStep::Record {
            track_id: id,
            result,
            line,
        } && id == track_id && (success ==> (result matches DownloadResult::Done { filename }
            && filename@ == trimmed(stdout@) && line@ == "done"@)) && (!success ==> (
        result matches DownloadResult::Failed { error } && error@ == failure_detail_of(stderr@)
            && line@ == "error: "@ + error@))),
{
    match run {
        RunOutcome::NotStarted => DownloadStep::Stop { error: YitError::YtDlpMissing },
        RunOutcome::Finished { success, stdout, stderr } => {
            let result = download_outcome(success, stdout.as_str(), stderr.as_str());
            let line = outcome_line(&result);
            DownloadStep::Record { track_id, result, line }
        },
    }
}

/// What the API-based pull does after one track's run.
pub enum PullStep {
    /// Mark the track's download done.
    Done,
    /// Mark the track's download failed with this message.
    Failed { error: String },
    /// Stop the loop with this failure.
    Stop { failure: YitError },
}

/// One step of the API-based pull: a run that could not start stops the
/// loop with `YtDlpMissing`; a successful run marks the download done; a
/// failed run marks it failed with the last line of its error stream.
pub fn pull_step(run: RunOutcome) -> (res: PullStep)
    ensures
        run is NotStarted ==> res == (PullStep::Stop { failure: YitError::YtDlpMissing }),
        run matches RunOutcome::Finished { success, stdout, stderr } ==> (success ==> res is Done)
            && (!success ==> (res matches PullStep::Failed { error } && error@ == failure_detail_of(
            stderr@,
        ))),
{
    match run {
        RunOutcome::NotStarted => PullStep::Stop { failure: YitError::YtDlpMissing },
        RunOutcome::Finished { success, stdout: _, stderr } => {
            if success {
                PullStep::Done
            } else {
                PullStep::Failed { error: failure_detail(stderr.as_str()) }
            }
        },
    }
}

/// The word the API-based pull prints after a track's run, if it goes on.
pub fn pull_step_line(step: &PullStep) -> (res: Option<String>)
    ensures
        step is Done ==> (res matches Some(s) && s@ == "done"@),
        step matches PullStep::Failed { error } ==> (res matches Some(s) && s@ == "error: "@
            + error@),
        step is Stop ==> res is None,
{
    match step {
        PullStep::Done => Some("done".to_owned()),
        PullStep::Failed { error } => {
            let mut s = "error: ".to_owned();
            s.append(error.as_str());
            Some(s)
        },
        PullStep::Stop { .. } => None,
    }
}

/// The first line of the API-based pull, and whether there is anything to
/// download: `Nothing to download.` when no track waits.
pub fn pull_header(pending: usize) -> (res: (String, bool))
    ensures
        pending == 0 ==> res.0@ == "Nothing to download."@ && !res.1,
        pending > 0 ==> res.0@ == decimal(pending as nat) + " track(s) to download."@ && res.1,
{
    if pending == 0 {
        ("Nothing to download.".to_owned(), false)
    } else {
        let mut s = u64_to_decimal(pending as u64);
        s.append(" track(s) to download.");
        (s, true)
    }
}

/// The heading of the download loop: `Downloading:` when tracks wait,
/// nothing at all when none does.
pub fn downloads_header(pending: usize) -> (res: Option<String>)
    ensures
        pending == 0 ==> res is None,
        pending > 0 ==> (res matches Some(s) && s@ == "Downloading:"@),
{
    if pending == 0 {
        None
    } else {
        Some("Downloading:".to_owned())
    }
}

/// The text printed before a track's download run.
pub fn progress_line(title: &str) -> (res: String)
    ensures
        res@ == "  "@ + title@ + " ... "@,
{
    let mut s = "  ".to_owned();
    s.append(title);
    s.append(" ... ");
    s
}

/// The lines that `diff` prints for one new track.
pub open spec fn new_track_lines(t: TrackView) -> Seq<Seq<char>> {
    seq![
        "+ "@ + pad2(t.position + 1) + " - "@ + t.title,
        "  "@ + watch_url_of(t.youtube_id),
        Seq::<char>::empty(),
    ]
}

/// The lines that `diff` prints for one removed track.
pub open spec fn removed_track_lines(t: TrackView) -> Seq<Seq<char>> {
    seq![
        "- "@ + pad2(t.position + 1) + " - "@ + t.title,
        "  local file preserved"@,
        Seq::<char>::empty(),
    ]
}

/// The lines for a list of tracks, each track's lines in order.
pub open spec fn lines_for(tracks: Seq<TrackView>, added: bool) -> Seq<Seq<char>>
    decreases tracks.len(),
{
    if tracks.len() == 0 {
        seq![]
    } else {
        lines_for(tracks.drop_last(), added) + if added {
            new_track_lines(tracks.last())
        } else {
            removed_track_lines(tracks.last())
        }
    }
}

/// What `diff` prints: `No changes.` when nothing differs, else the new
/// tracks and then the removed ones.
pub open spec fn diff_report_of(new: Seq<TrackView>, removed: Seq<TrackView>) -> Seq<Seq<char>> {
    if new.len() == 0 && removed.len() == 0 {
        seq!["No changes."@]
    } else {
        lines_for(new, true) + lines_for(removed, false)
    }
}

/// Whether every track can be numbered (its position plus one fits).
pub open spec fn numberable(tracks: Seq<DiffEntry>) -> bool {
    forall|i: int| 0 <= i < tracks.len() ==> #[trigger] tracks[i].position < i64::MAX
}

fn push_track_lines(out: &mut Vec<String>, t: &DiffEntry, added: bool)
    requires
        t.position < i64::MAX,
    ensures
        final(out).deep_view() == old(out).deep_view() + if added {
            new_track_lines(t@)
        } else {
            removed_track_lines(t@)
        },
{
    let ghost before = out.deep_view();
    let mut first = if added { "+ ".to_owned() } else { "- ".to_owned() };
    let number = i64_pad2(t.position + 1);
    first.append(number.as_str());
    first.append(" - ");
    first.append(t.title.as_str());
    out.push(first);
    if added {
        let mut second = "  ".to_owned();
        let url = watch_url(t.youtube_id.as_str());
        second.append(url.as_str());
        out.push(second);
    } else {
        out.push("  local file preserved".to_owned());
    }
    out.push(String::new());
    assert(out.deep_view() =~= before + if added {
        new_track_lines(t@)
    } else {
        removed_track_lines(t@)
    });
}

fn push_all_lines(out: &mut Vec<String>, tracks: &Vec<DiffEntry>, added: bool)
    requires
        numberable(tracks@),
    ensures
        final(out).deep_view() == old(out).deep_view() + lines_for(track_views(tracks@), added),
{
    let ghost before = out.deep_view();
    let mut i: usize = 0;
    assert(track_views(tracks@).take(0) =~= seq![]);
    assert(before + lines_for(seq![], added) =~= before);
    while i < tracks.len()
        invariant
            i <= tracks@.len(),
            numberable(tracks@),
            out.deep_view() == before + lines_for(track_views(tracks@).take(i as int), added),
        decreases tracks@.len() - i,
    {
        assert(tracks@[i as int].position < i64::MAX);
        push_track_lines(out, &tracks[i], added);
        let ghost views = track_views(tracks@);
        assert(views.take(i + 1).drop_last() =~= views.take(i as int));
        assert(views.take(i + 1).last() == tracks@[i as int]@);
        assert(out.deep_view() =~= before + lines_for(views.take(i + 1), added));
        i = i + 1;
    }
    assert(track_views(tracks@).take(i as int) =~= track_views(tracks@));
}

/// The lines that `diff` prints for a comparison.
pub fn diff_report(diff: &TrackDiff) -> (res: Vec<String>)
    requires
        numberable(diff.new@),
        numberable(diff.removed@),
    ensures
        res.deep_view() == diff_report_of(track_views(diff.new@), track_views(diff.removed@)),
{
    let mut out: Vec<String> = Vec::new();
    if diff.new.len() == 0 && diff.removed.len() == 0 {
        out.push("No changes.".to_owned());
        assert(out.deep_view() =~= seq!["No changes."@]);
        return out;
    }
    assert(out.deep_view() =~= seq![]);
    push_all_lines(&mut out, &diff.new, true);
    push_all_lines(&mut out, &diff.removed, false);
    assert(out.deep_view() =~= lines_for(track_views(diff.new@), true) + lines_for(
        track_views(diff.removed@),
        false,
    ));
    out
}

} // verus!
