//! The ways a command can refuse to go on, and what it says when it does.
use vstd::prelude::*;

verus! {

/// A failure that the commands report to the user.
pub enum YitError {
    /// The input names no playlist.
    InvalidPlaylistUrl,
    /// `clone` would write into a directory that already exists.
    DirectoryExists { name: String },
    /// `init` in a directory that is already tracked.
    AlreadyTracked,
    /// A command that needs a tracked directory ran elsewhere.
    NotAPlaylist,
    /// `untrack` in a directory that is not tracked.
    NotTracked,
    /// The `yt-dlp` program could not be started.
    YtDlpMissing,
    /// `yt-dlp` ran and failed; `detail` is the last line it wrote.
    FetchFailed { playlist_id: String, detail: String },
    /// `yt-dlp` wrote something that is not a playlist.
    UnreadablePlaylist { playlist_id: String },
    /// The configuration file could not be read as a configuration.
    UnreadableConfig { path: String },
    /// The tracking data could not be removed.
    RemoveFailed { path: String },
    /// No saved Google login.
    NotLoggedIn,
    /// The login callback carried no `code` parameter.
    NoCallbackCode,
    /// The YouTube Data API knows no playlist with this id.
    PlaylistNotFound { playlist_id: String },
}

/// The message shown for each failure.
pub open spec fn error_message(e: YitError) -> Seq<char> {
    match e {
        YitError::InvalidPlaylistUrl => "Invalid YouTube playlist URL or ID."@,
        YitError::DirectoryExists { name } => "Directory '"@ + name@ + "' already exists."@,
        YitError::AlreadyTracked => "Already a yit playlist (.yit/yithub.db exists)."@,
        YitError::NotAPlaylist => "Not a yit playlist (no yithub.db here). Run `yit init <url>` or `yit clone <url>` first."@,
        YitError::NotTracked => "Not a yit playlist (no yithub.db here)."@,
        YitError::YtDlpMissing => "yt-dlp not found. Install it with: pip install yt-dlp"@,
        YitError::FetchFailed { playlist_id, detail } => "yt-dlp failed to fetch playlist '"@
            + playlist_id@ + "': "@ + detail@,
        YitError::UnreadablePlaylist { playlist_id } => "Failed to parse yt-dlp output for playlist '"@
            + playlist_id@ + "'"@,
        YitError::UnreadableConfig { path } => "Failed to parse "@ + path@,
        YitError::RemoveFailed { path } => "Failed to remove "@ + path@,
        YitError::NotLoggedIn => "Not logged in. Run `yit login` first."@,
        YitError::NoCallbackCode => "could not extract code from callback"@,
        YitError::PlaylistNotFound { playlist_id } => "Playlist '"@ + playlist_id@
            + "' not found on YouTube"@,
    }
}

impl YitError {
    /// The message shown to the user for this failure.
    pub fn message(&self) -> (res: String)
        ensures
            res@ == error_message(*self),
    {
        match self {
            YitError::InvalidPlaylistUrl => "Invalid YouTube playlist URL or ID.".to_owned(),
            YitError::DirectoryExists { name } => {
                let mut s = "Directory '".to_owned();
                s.append(name.as_str());
                s.append("' already exists.");
                s
            },
            YitError::AlreadyTracked => "Already a yit playlist (.yit/yithub.db exists).".to_owned(),
            YitError::NotAPlaylist => "Not a yit playlist (no yithub.db here). Run `yit init <url>` or `yit clone <url>` first.".to_owned(),
            YitError::NotTracked => "Not a yit playlist (no yithub.db here).".to_owned(),
            YitError::YtDlpMissing => "yt-dlp not found. Install it with: pip install yt-dlp".to_owned(),
            YitError::FetchFailed { playlist_id, detail } => {
                let mut s = "yt-dlp failed to fetch playlist '".to_owned();
                s.append(playlist_id.as_str());
                s.append("': ");
                s.append(detail.as_str());
                s
            },
            YitError::UnreadablePlaylist { playlist_id } => {
                let mut s = "Failed to parse yt-dlp output for playlist '".to_owned();
                s.append(playlist_id.as_str());
                s.append("'");
                s
            },
            YitError::UnreadableConfig { path } => {
                let mut s = "Failed to parse ".to_owned();
                s.append(path.as_str());
                s
            },
            YitError::RemoveFailed { path } => {
                let mut s = "Failed to remove ".to_owned();
                s.append(path.as_str());
                s
            },
            YitError::NotLoggedIn => "Not logged in. Run `yit login` first.".to_owned(),
            YitError::NoCallbackCode => "could not extract code from callback".to_owned(),
            YitError::PlaylistNotFound { playlist_id } => {
                let mut s = "Playlist '".to_owned();
                s.append(playlist_id.as_str());
                s.append("' not found on YouTube");
                s
            },
        }
    }
}

} // verus!
