//! The progress events that the orchestration steps hand to an observer.
//!
//! Each operation has its own closed vocabulary.  An event is built at the
//! moment its condition occurs, delivered synchronously, and never stored.

use vstd::prelude::*;
use crate::api::likes::Track;
use crate::api::playlists::{Playlist, PlaylistMeta};
use crate::paginate::{pag_run, lemma_pagination_completeness, PagModel, PageStep, PageView};
use crate::{ClientCfgView, Error};

verus! {

/// Events that can occur while fetching likes.
#[derive(Debug)]
pub enum LikesZestingEvent {
    /// Finished downloading more data about likes.
    ///
    /// This event can occur multiple times.
    MoreLikesInfoDownloaded {
        /// The number of additional likes that info was downloaded for.
        count: i64,
    },
    /// The server returned an error response and we are waiting for the
    /// given amount of seconds before retrying the request.
    ///
    /// This event can occur multiple times.
    PausedAfterServerError { time_secs: u64 },
}

/// Events that can occur while fetching track audio.
pub enum TracksAudioZestingEvent<'a> {
    /// The number of tracks that are going to be downloaded.
    ///
    /// This event occurs only once.
    NumTracksToDownload { num: u64 },
    /// Start of downloading a track.
    ///
    /// This event can occur multiple times.
    StartTrackDownload { track_info: &'a Track },
    /// Finished downloading a track; `track_data` is the audio.
    ///
    /// This event can occur multiple times.
    FinishTrackDownload { track_info: &'a Track, track_data: Vec<u8> },
    /// An error occurred while trying to download a track.
    ///
    /// This event can occur multiple times.
    TrackDownloadError { track_info: &'a Track, err: Error },
    /// The server returned an error response and we are waiting for the
    /// given amount of seconds before retrying the request.
    ///
    /// This event can occur multiple times.
    PausedAfterServerError { time_secs: u64 },
}

/// Events that can occur while fetching playlists.
#[derive(Debug)]
pub enum PlaylistsZestingEvent<'a> {
    /// Finished downloading "meta"-data about `count` more playlists.
    ///
    /// This event can occur multiple times.
    MorePlaylistMetaInfoDownloaded {
        /// The number of additional playlists that info was downloaded for.
        count: i64,
    },
    /// Finished downloading "meta"-data for all playlists.
    ///
    /// This event occurs only once.
    FinishPlaylistMetaInfoDownloading,
    /// Start of downloading full information for another playlist.
    ///
    /// This event can occur multiple times.
    StartPlaylistInfoDownload { playlist_meta: &'a PlaylistMeta },
    /// End of downloading full information for another playlist.
    ///
    /// This event can occur multiple times.
    FinishPlaylistInfoDownload { playlist_meta: &'a PlaylistMeta },
    /// An error occurred while downloading playlist info.
    ///
    /// This event can occur multiple times.
    PlaylistInfoDownloadError { playlist_meta: &'a PlaylistMeta, err: Error },
    /// An error occurred while attempting to complete downloaded playlist
    /// information.  The information is still returned, but it may not be
    /// complete.
    ///
    /// This event can occur multiple times.
    PlaylistInfoCompletionError { playlist_meta: &'a PlaylistMeta, err: Error },
    /// The server returned an error response and we are waiting for the
    /// given amount of seconds before retrying the request.
    ///
    /// This event can occur multiple times.
    PausedAfterServerError { time_secs: u64 },
}

/// Events that can occur while fetching audio for playlists.
pub enum PlaylistsAudioZestingEvent<'a> {
    /// The number of playlists and tracks that are going to be downloaded.
    ///
    /// This event occurs only once.
    NumItemsToDownload { playlists_num: u64, tracks_num: u64 },
    /// Start of downloading a playlist.
    ///
    /// This event can occur multiple times.
    StartPlaylistDownload { playlist_info: &'a Playlist },
    /// Events related to the downloading of individual tracks.
    TrackEvent(TracksAudioZestingEvent<'a>, &'a Playlist),
    /// Finished downloading a playlist.
    ///
    /// This event can occur multiple times.
    FinishPlaylistDownload { playlist_info: &'a Playlist },
}


/// The likes-vocabulary event a pagination instruction reports: a progress
/// count for an arrived page, a pause for a transient failure, nothing for
/// an abort (the error itself is surfaced, not reported as an event).
pub open spec fn likes_event_model(step: PageStep) -> Option<LikesZestingEvent> {
    match step {
        PageStep::Next { count } => Some(
            LikesZestingEvent::MoreLikesInfoDownloaded { count: count as i64 },
        ),
        PageStep::Done { count } => Some(
            LikesZestingEvent::MoreLikesInfoDownloaded { count: count as i64 },
        ),
        PageStep::Pause { time_secs } => Some(
            LikesZestingEvent::PausedAfterServerError { time_secs },
        ),
        PageStep::Abort { .. } => None,
    }
}

/// The event to report for one step of the likes pagination.
pub fn likes_event(step: &PageStep) -> (r: Option<LikesZestingEvent>)
    ensures
        r == likes_event_model(*step),
{
    match step {
        PageStep::Next { count } => Some(
            LikesZestingEvent::MoreLikesInfoDownloaded { count: *count as i64 },
        ),
        PageStep::Done { count } => Some(
            LikesZestingEvent::MoreLikesInfoDownloaded { count: *count as i64 },
        ),
        PageStep::Pause { time_secs } => Some(
            LikesZestingEvent::PausedAfterServerError { time_secs: *time_secs },
        ),
        PageStep::Abort { .. } => None,
    }
}

/// The playlists-vocabulary event a metadata-page instruction reports.
pub open spec fn playlists_meta_event_model(step: PageStep) -> Option<
    PlaylistsZestingEvent<'static>,
> {
    match step {
        PageStep::Next { count } => Some(
            PlaylistsZestingEvent::MorePlaylistMetaInfoDownloaded { count: count as i64 },
        ),
        PageStep::Done { count } => Some(
            PlaylistsZestingEvent::MorePlaylistMetaInfoDownloaded { count: count as i64 },
        ),
        PageStep::Pause { time_secs } => Some(
            PlaylistsZestingEvent::PausedAfterServerError { time_secs },
        ),
        PageStep::Abort { .. } => None,
    }
}

/// The event to report for one step of the playlists-metadata pagination.
pub fn playlists_meta_event(step: &PageStep) -> (r: Option<PlaylistsZestingEvent<'static>>)
    ensures
        r == playlists_meta_event_model(*step),
{
    match step {
        PageStep::Next { count } => Some(
            PlaylistsZestingEvent::MorePlaylistMetaInfoDownloaded { count: *count as i64 },
        ),
        PageStep::Done { count } => Some(
            PlaylistsZestingEvent::MorePlaylistMetaInfoDownloaded { count: *count as i64 },
        ),
        PageStep::Pause { time_secs } => Some(
            PlaylistsZestingEvent::PausedAfterServerError { time_secs: *time_secs },
        ),
        PageStep::Abort { .. } => None,
    }
}


/// Pagination completeness at the event level: a successful likes run over
/// N pages — every page before the last carrying a continuation, the last
/// none — reports exactly one progress event per page, the i-th carrying
/// the i-th page's item count, and nothing else.
pub proof fn lemma_likes_progress_events<C>(
    cfg: ClientCfgView,
    s: PagModel<C>,
    pages: Seq<PageView<C>>,
)
    requires
        s.phase is Active,
        pages.len() >= 1,
        forall|i: int| 0 <= i < pages.len() - 1 ==> pages[i].next is Some,
        pages[pages.len() - 1].next is None,
    ensures
        ({
            let (_, steps) = pag_run(
                cfg,
                s,
                pages.map_values(|p: PageView<C>| Result::<PageView<C>, Error>::Ok(p)),
            );
            &&& steps.len() == pages.len()
            &&& forall|i: int|
                0 <= i < pages.len() ==> likes_event_model(#[trigger] steps[i]) == Some(
                    LikesZestingEvent::MoreLikesInfoDownloaded {
                        count: pages[i].items.len() as usize as i64,
                    },
                )
        }),
{
    lemma_pagination_completeness(cfg, s, pages);
}

} // verus!
