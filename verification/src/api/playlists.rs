//! Records returned by the playlist listing and lookup endpoints.

use vstd::prelude::*;
use crate::api::likes::Track;

verus! {

/// One page of the playlists listing: the items plus the continuation
/// reference of the next page, absent on the final page.
#[derive(Debug)]
pub struct PlaylistsRaw {
    pub collection: Option<Vec<PlaylistCollection>>,
    pub next_href: Option<String>,
}

/// One envelope of the playlists listing.
#[derive(Debug)]
pub struct PlaylistCollection {
    pub created_at: Option<String>,
    pub playlist: Option<PlaylistMeta>,
}

/// The shallow description of a playlist that the listing returns; its
/// `uri` is where the full record is fetched from.
#[derive(Debug)]
pub struct PlaylistMeta {
    pub id: Option<i64>,
    pub uri: Option<String>,
    pub title: Option<String>,
    pub permalink_url: Option<String>,
}

/// The full record of a playlist: its tracks plus descriptive metadata.
#[derive(Debug)]
pub struct Playlist {
    pub id: Option<i64>,
    pub uri: Option<String>,
    pub title: Option<String>,
    pub permalink_url: Option<String>,
    pub tracks: Option<Vec<Track>>,
}

} // verus!
