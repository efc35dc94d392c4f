//! Playlists as the YouTube Data API describes them, for the API-based
//! client.
use vstd::prelude::*;

use crate::error::YitError;

verus! {

/// One thumbnail image.
pub struct Thumbnail {
    pub url: String,
}

/// The thumbnails of a playlist, by size.
pub struct Thumbnails {
    pub default: Option<Thumbnail>,
}

/// The descriptive part of a playlist.
pub struct PlaylistSnippet {
    pub title: String,
    pub description: String,
    pub thumbnails: Thumbnails,
}

/// A playlist resource.
pub struct PlaylistItem {
    pub id: String,
    pub snippet: PlaylistSnippet,
}

/// The query of the `playlists` request for one playlist id.
pub fn playlist_query(playlist_id: &str) -> (res: Vec<(String, String)>)
    ensures
        res.deep_view() == seq![("part"@, "snippet"@), ("id"@, playlist_id@)],
{
    let mut v: Vec<(String, String)> = Vec::new();
    v.push(("part".to_owned(), "snippet".to_owned()));
    v.push(("id".to_owned(), playlist_id.to_owned()));
    assert(v.deep_view() =~= seq![("part"@, "snippet"@), ("id"@, playlist_id@)]);
    v
}

/// The playlist from a `playlists` response: the first item listed, or
/// `PlaylistNotFound` when the response lists none.
pub fn first_playlist_item(items: Option<Vec<PlaylistItem>>, playlist_id: &str) -> (res: Result<
    PlaylistItem,
    YitError,
>)
    ensures
        match items {
            Some(v) => v@.len() > 0 ==> res == Ok::<PlaylistItem, YitError>(v@[0]),
            None => true,
        },
        (items is None || items->0@.len() == 0) ==> (res matches Err(
            YitError::PlaylistNotFound { playlist_id: p },
        ) && p@ == playlist_id@),
{
    match items {
        Some(mut v) => {
            if v.len() > 0 {
                Ok(v.remove(0))
            } else {
                Err(YitError::PlaylistNotFound { playlist_id: playlist_id.to_owned() })
            }
        },
        None => Err(YitError::PlaylistNotFound { playlist_id: playlist_id.to_owned() }),
    }
}

/// The URL of the default-size thumbnail, if there is one.
pub fn default_thumbnail_url(thumbnails: &Thumbnails) -> (res: Option<String>)
    ensures
        res.deep_view() == match thumbnails.default {
            Some(t) => Some(t.url@),
            None => None::<Seq<char>>,
        },
{
    match &thumbnails.default {
        Some(t) => Some(t.url.clone()),
        None => None,
    }
}

} // verus!
