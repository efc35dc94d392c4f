//! The decisions and messages of the commands `clone`, `init`, `sync` and
//! `untrack`.
use vstd::prelude::*;

use crate::error::YitError;
use crate::text::{decimal, i64_to_decimal, signed_decimal, u64_to_decimal};
use crate::youtube::{extract_playlist_id, parsed_query_pairs, playlist_id_of};

verus! {

/// The playlist id named by a command's argument, or `InvalidPlaylistUrl`.
pub fn require_playlist_id(input: &str) -> (res: Result<String, YitError>)
    ensures
        match playlist_id_of(input@, parsed_query_pairs(input@)) {
            Some(id) => res matches Ok(s) && s@ == id,
            None => res == Err::<String, YitError>(YitError::InvalidPlaylistUrl),
        },
{
    match extract_playlist_id(input) {
        Some(id) => Ok(id),
        None => Err(YitError::InvalidPlaylistUrl),
    }
}

/// `clone` writes into a new directory named after the playlist; it refuses
/// when that directory already exists.
pub fn check_clone_target(name: &str, exists: bool) -> (res: Result<(), YitError>)
    ensures
        !exists ==> res is Ok,
        exists ==> (res matches Err(YitError::DirectoryExists { name: n }) && n@ == name@),
{
    if exists {
        Err(YitError::DirectoryExists { name: name.to_owned() })
    } else {
        Ok(())
    }
}

/// `init` refuses a directory that is already tracked.
pub fn check_init_target(db_exists: bool) -> (res: Result<(), YitError>)
    ensures
        !db_exists ==> res is Ok,
        db_exists ==> res == Err::<(), YitError>(YitError::AlreadyTracked),
{
    if db_exists {
        Err(YitError::AlreadyTracked)
    } else {
        Ok(())
    }
}

/// `untrack` refuses a directory that is not tracked.
pub fn check_untrack_target(db_exists: bool) -> (res: Result<(), YitError>)
    ensures
        db_exists ==> res is Ok,
        !db_exists ==> res == Err::<(), YitError>(YitError::NotTracked),
{
    if db_exists {
        Ok(())
    } else {
        Err(YitError::NotTracked)
    }
}

/// Printed when `clone` starts.
pub fn cloning_line(playlist_id: &str) -> (res: String)
    ensures
        res@ == "Cloning "@ + playlist_id@ + "..."@,
{
    let mut s = "Cloning ".to_owned();
    s.append(playlist_id);
    s.append("...");
    s
}

/// Printed when `clone` is done.
pub fn cloned_line(playlist_id: &str) -> (res: String)
    ensures
        res@ == "Cloned into "@ + playlist_id@ + "/"@,
{
    let mut s = "Cloned into ".to_owned();
    s.append(playlist_id);
    s.append("/");
    s
}

/// Printed when `init` is done.
pub fn init_summary(title: &str, new_count: u32) -> (res: Vec<String>)
    ensures
        res.deep_view() == seq![
            "Initialized yit playlist: "@ + title@,
            "  "@ + decimal(new_count as nat) + " track(s) found. Run `yit sync` to download."@,
        ],
{
    let mut a = "Initialized yit playlist: ".to_owned();
    a.append(title);
    let mut b = "  ".to_owned();
    let n = u64_to_decimal(new_count as u64);
    b.append(n.as_str());
    b.append(" track(s) found. Run `yit sync` to download.");
    let mut v: Vec<String> = Vec::new();
    v.push(a);
    v.push(b);
    assert(v.deep_view() =~= seq![
        "Initialized yit playlist: "@ + title@,
        "  "@ + decimal(new_count as nat) + " track(s) found. Run `yit sync` to download."@,
    ]);
    v
}

/// Printed by `sync` after the comparison, when it found new tracks.
pub fn new_tracks_line(new_count: u32) -> (res: Option<String>)
    ensures
        new_count == 0 ==> res is None,
        new_count > 0 ==> (res matches Some(s) && s@ == "  "@ + decimal(new_count as nat)
            + " new track(s)"@),
{
    if new_count > 0 {
        let mut s = "  ".to_owned();
        let n = u64_to_decimal(new_count as u64);
        s.append(n.as_str());
        s.append(" new track(s)");
        Some(s)
    } else {
        None
    }
}

/// One line of the list of tracked playlists: id, downloaded and total
/// track counts, title.
pub fn playlist_list_line(youtube_id: &str, title: &str, total: i64, done: i64) -> (res: String)
    ensures
        res@ == youtube_id@ + " ["@ + signed_decimal(done as int) + "/"@ + signed_decimal(
            total as int,
        ) + "] "@ + title@,
{
    let mut s = youtube_id.to_owned();
    s.append(" [");
    let d = i64_to_decimal(done);
    s.append(d.as_str());
    s.append("/");
    let t = i64_to_decimal(total);
    s.append(t.as_str());
    s.append("] ");
    s.append(title);
    s
}

/// Rows that an insert-or-update added, among the first `n` statements'
/// affected-row counts (a count of one marks an insert).
pub open spec fn inserted_count(rows_affected: Seq<u64>, n: nat) -> nat
    decreases n,
{
    if n == 0 {
        0
    } else {
        inserted_count(rows_affected, (n - 1) as nat) + if rows_affected[n - 1] == 1 {
            1nat
        } else {
            0nat
        }
    }
}

/// How many of the insert-or-update statements inserted a row.
pub fn count_inserted(rows_affected: &Vec<u64>) -> (res: u32)
    requires
        rows_affected@.len() <= u32::MAX,
    ensures
        res == inserted_count(rows_affected@, rows_affected@.len()),
{
    let mut n: u32 = 0;
    let mut i: usize = 0;
    while i < rows_affected.len()
        invariant
            i <= rows_affected@.len() <= u32::MAX,
            n == inserted_count(rows_affected@, i as nat),
            n <= i,
        decreases rows_affected@.len() - i,
    {
        if rows_affected[i] == 1 {
            n = n + 1;
        }
        i = i + 1;
    }
    n
}

/// Printed by the API-based `fetch` for each playlist: how many tracks it
/// lists and how many of them were new.
pub fn fetch_summary_line(track_count: usize, new_count: u32) -> (res: String)
    ensures
        res@ == "  "@ + decimal(track_count as nat) + " tracks ("@ + decimal(new_count as nat)
            + " new)"@,
{
    let mut s = "  ".to_owned();
    let a = u64_to_decimal(track_count as u64);
    s.append(a.as_str());
    s.append(" tracks (");
    let b = u64_to_decimal(new_count as u64);
    s.append(b.as_str());
    s.append(" new)");
    s
}

/// Printed by the API-based `pull` before each track's download run.
pub fn pull_progress_line(title: &str) -> (res: String)
    ensures
        res@ == "Downloading: "@ + title@ + " ... "@,
{
    let mut s = "Downloading: ".to_owned();
    s.append(title);
    s.append(" ... ");
    s
}

/// Printed by `sync` before it fetches the playlist.
pub const SYNC_FETCHING: &'static str = "Fetching playlist...";

/// Printed by `sync` before it writes the tracks.
pub const SYNC_COMPARING: &'static str = "Comparing tracks...";

/// Printed by `sync` when it is done.
pub const SYNC_COMPLETE: &'static str = "Sync complete.";

/// Printed by `untrack` when it is done.
pub const UNTRACKED: &'static str = "Untracked. Downloaded files were left in place.";

/// Printed when a playlist to add is already in the library.
pub const ALREADY_IN_LIBRARY: &'static str = "Playlist already tracked.";

/// Printed when the library holds no playlist.
pub const NO_PLAYLISTS: &'static str = "No playlists tracked. Use `yit add <url>` to add one.";

/// Printed by the API-based login before it opens the browser.
pub const OPENING_BROWSER: &'static str = "Opening browser for Google login...";

/// Printed by the API-based login while it waits for the browser.
pub const WAITING_FOR_CALLBACK: &'static str = "Waiting for Google callback on localhost:9999...";

/// Printed when a playlist was added to the library.
pub fn tracking_line(title: &str) -> (res: String)
    ensures
        res@ == "Tracking: "@ + title@,
{
    let mut s = "Tracking: ".to_owned();
    s.append(title);
    s
}

/// Printed before each playlist of the library is fetched.
pub fn fetching_line(title: &str) -> (res: String)
    ensures
        res@ == "Fetching: "@ + title@,
{
    let mut s = "Fetching: ".to_owned();
    s.append(title);
    s
}

/// Printed once the API-based login is done.
pub fn logged_in_line(email: &str) -> (res: String)
    ensures
        res@ == "Logged in as "@ + email@,
{
    let mut s = "Logged in as ".to_owned();
    s.append(email);
    s
}

} // verus!
