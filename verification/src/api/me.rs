//! The record the `me` endpoint describes the authenticated user with.

use vstd::prelude::*;

verus! {

/// Information about the user whose credentials the client was built with.
#[derive(Debug)]
pub struct Me {
    pub id: Option<i64>,
    pub username: Option<String>,
    pub permalink_url: Option<String>,
    pub playlist_count: Option<i64>,
    pub playlist_likes_count: Option<i64>,
    pub private_playlists_count: Option<i64>,
}

} // verus!
