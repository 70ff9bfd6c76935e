//! Records returned by the liked-tracks listing and shared by every
//! track-bearing endpoint.  All descriptive fields are optional because the
//! platform's responses drift; the logic only relies on the handful its
//! contracts name.

use vstd::prelude::*;

verus! {

/// One page of the liked-tracks listing: the items plus the continuation
/// reference of the next page, absent on the final page.
#[derive(Debug)]
pub struct LikesRaw {
    pub collection: Option<Vec<Collection>>,
    pub next_href: Option<String>,
}

/// One envelope of the liked-tracks listing.
#[derive(Debug)]
pub struct Collection {
    pub created_at: Option<String>,
    pub track: Track,
}

/// A track record.  `media` is absent until the record has been resolved or
/// backfilled; a download needs it.
#[derive(Debug)]
pub struct Track {
    pub comment_count: Option<i64>,
    pub full_duration: Option<i64>,
    pub downloadable: Option<bool>,
    pub created_at: Option<String>,
    pub description: Option<String>,
    pub media: Option<Media>,
    pub title: Option<String>,
    pub publisher_metadata: Option<PublisherMetadata>,
    pub duration: Option<i64>,
    pub has_downloads_left: Option<bool>,
    pub artwork_url: Option<String>,
    pub public: Option<bool>,
    pub streamable: Option<bool>,
    pub tag_list: Option<String>,
    pub download_url: Option<String>,
    pub genre: Option<String>,
    pub id: Option<i64>,
    pub reposts_count: Option<i64>,
    pub state: Option<String>,
    pub label_name: Option<String>,
    pub last_modified: Option<String>,
    pub commentable: Option<bool>,
    pub policy: Option<String>,
    pub visuals: Option<Visuals>,
    pub kind: Option<String>,
    pub purchase_url: Option<String>,
    pub sharing: Option<String>,
    pub uri: Option<String>,
    pub download_count: Option<i64>,
    pub likes_count: Option<i64>,
    pub urn: Option<String>,
    pub license: Option<String>,
    pub purchase_title: Option<String>,
    pub display_date: Option<String>,
    pub embeddable_by: Option<String>,
    pub release_date: Option<String>,
    pub user_id: Option<i64>,
    pub monetization_model: Option<String>,
    pub waveform_url: Option<String>,
    pub permalink: Option<String>,
    pub permalink_url: Option<String>,
    pub user: Option<User>,
    pub playback_count: Option<i64>,
}

/// The media descriptor of a track: the transcoding variants it can be
/// streamed as.
#[derive(Debug)]
pub struct Media {
    pub transcodings: Option<Vec<Transcoding>>,
}

/// One audio rendition of a track.
#[derive(Debug)]
pub struct Transcoding {
    pub url: String,
    pub preset: String,
    pub duration: i64,
    pub snipped: bool,
    pub format: Format,
    pub quality: Quality,
}

/// Delivery format of a transcoding variant.
#[derive(Debug)]
pub struct Format {
    pub protocol: Protocol,
    pub mime_type: String,
}

#[derive(Debug)]
pub struct PublisherMetadata {
    pub urn: Option<String>,
    pub contains_music: Option<bool>,
    pub id: Option<i64>,
    pub artist: Option<String>,
    pub writer_composer: Option<String>,
    pub publisher: Option<String>,
    pub isrc: Option<String>,
    pub album_title: Option<String>,
    pub release_title: Option<String>,
    pub p_line_for_display: Option<String>,
    pub p_line: Option<String>,
    pub explicit: Option<bool>,
    pub upc_or_ean: Option<String>,
    pub c_line: Option<String>,
    pub c_line_for_display: Option<String>,
    pub iswc: Option<String>,
}

#[derive(Debug)]
pub struct User {
    pub avatar_url: Option<String>,
    pub first_name: Option<String>,
    pub full_name: Option<String>,
    pub id: Option<i64>,
    pub kind: Option<String>,
    pub last_modified: Option<String>,
    pub last_name: Option<String>,
    pub permalink: Option<String>,
    pub permalink_url: Option<String>,
    pub uri: Option<String>,
    pub urn: Option<String>,
    pub username: Option<String>,
    pub verified: Option<bool>,
    pub city: Option<String>,
    pub country_code: Option<String>,
}

#[derive(Debug)]
pub struct Visuals {
    pub urn: Option<String>,
    pub enabled: Option<bool>,
    pub visuals: Option<Vec<Visual>>,
}

#[derive(Debug)]
pub struct Visual {
    pub urn: Option<String>,
    pub entry_time: Option<i64>,
    pub visual_url: Option<String>,
}

/// Delivery protocol of a transcoding variant.
#[derive(Debug, Clone, Copy, PartialEq, Eq, Structural)]
pub enum Protocol {
    Hls,
    Progressive,
}

/// Quality tier of a transcoding variant.
#[derive(Debug, Clone, Copy, PartialEq, Eq, Structural)]
pub enum Quality {
    Hq,
    Sq,
}

} // verus!
