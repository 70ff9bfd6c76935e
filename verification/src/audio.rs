//! Resolving and downloading track audio.
//!
//! A track's audio is reached in two authenticated-then-signed hops: the
//! deterministically selected transcoding variant names an info URL; the
//! fetched info document names a signed, time-limited media URL; that URL,
//! fetched without credentials, is the audio itself.  The signed URL
//! expires, so every attempt resolves afresh and nothing is cached across
//! tracks.  A batch of downloads advances track by track: a transient
//! server failure pauses and retries the same track, any other failure is
//! reported for that track alone and the batch moves on.

use vstd::prelude::*;
use crate::{Error, Request, ReqView, LoopControl, is_server_error, is_server_error_exec, Zester};
use crate::api::likes::{Track, Transcoding, Quality, Protocol};
use crate::api::playlists::Playlist;
use crate::api::Likes;
use crate::events::{TracksAudioZestingEvent, PlaylistsAudioZestingEvent};
use crate::json::{media_url_from_info, media_url_of, json_text_wf};

verus! {

/// Whether a variant is the one resolution wants: high quality over the
/// directly streamable progressive protocol.
pub open spec fn is_desired(t: Transcoding) -> bool {
    t.quality is Hq && t.format.protocol is Progressive
}

/// The first desired variant at or after position `i`, if any.
pub open spec fn desired_from(ts: Seq<Transcoding>, i: int) -> Option<int>
    decreases ts.len() - i,
    when 0 <= i
{
    if i >= ts.len() {
        None
    } else if is_desired(ts[i]) {
        Some(i)
    } else {
        desired_from(ts, i + 1)
    }
}

/// The variant that resolution deterministically selects: the first one
/// that is both high-quality and progressive.
pub open spec fn desired_index(ts: Seq<Transcoding>) -> Option<int> {
    desired_from(ts, 0)
}

/// Scan the variants for the first desired one.
fn find_desired(ts: &Vec<Transcoding>) -> (r: Option<usize>)
    ensures
        match r {
            Some(i) => i < ts@.len() && desired_index(ts@) == Some(i as int),
            None => desired_index(ts@) is None,
        },
{
    let n = ts.len();
    let mut i: usize = 0;
    while i < n
        invariant
            i <= n,
            n == ts@.len(),
            desired_index(ts@) == desired_from(ts@, i as int),
        decreases n - i,
    {
        if matches!(ts[i].quality, Quality::Hq) && matches!(ts[i].format.protocol, Protocol::Progressive) {
            return Some(i);
        }
        i = i + 1;
    }
    None
}

/// Where a track resolution stands.
#[verifier::ext_equal]
pub enum TrackFetchModel {
    /// The variant's info URL is pending: an authenticated exchange.
    Info { req: ReqView },
    /// The signed media URL is pending: an unauthenticated exchange.
    Media { req: ReqView },
    /// The audio arrived.
    Done { data: Seq<u8> },
}

enum TrackFetchState {
    Info { req: Request },
    Media { req: Request },
    Done { data: Vec<u8> },
}

/// The two-hop resolution of one track's audio.
///
/// Feed the info exchange's body to [`TrackFetch::step_info`], then the
/// media exchange's bytes to [`TrackFetch::step_media`]; either step hands
/// back the failure that ends this attempt, and the enclosing batch decides
/// whether to retry the track.
pub struct TrackFetch {
    state: TrackFetchState,
}

impl TrackFetch {
    /// Where the resolution stands.
    pub closed spec fn model(&self) -> TrackFetchModel {
        match self.state {
            TrackFetchState::Info { req } => TrackFetchModel::Info { req: req@ },
            TrackFetchState::Media { req } => TrackFetchModel::Media { req: req@ },
            TrackFetchState::Done { data } => TrackFetchModel::Done { data: data@ },
        }
    }

    /// The exchange the caller has to perform next.
    pub fn pending_request(&self) -> (r: &Request)
        requires
            !(self.model() is Done),
        ensures
            match self.model() {
                TrackFetchModel::Info { req } => r@ == req,
                TrackFetchModel::Media { req } => r@ == req,
                TrackFetchModel::Done { .. } => false,
            },
    {
        match &self.state {
            TrackFetchState::Info { req } => req,
            TrackFetchState::Media { req } => req,
            TrackFetchState::Done { .. } => vstd::pervasive::unreached(),
        }
    }

    /// Whether the info exchange is the pending one.
    pub fn awaiting_info(&self) -> (b: bool)
        ensures
            b == (self.model() is Info),
    {
        matches!(self.state, TrackFetchState::Info { .. })
    }

    /// Whether the media exchange is the pending one.
    pub fn awaiting_media(&self) -> (b: bool)
        ensures
            b == (self.model() is Media),
    {
        matches!(self.state, TrackFetchState::Media { .. })
    }

    /// Feed the outcome of the info exchange in.
    ///
    /// A body naming a signed media URL makes that URL the pending
    /// unauthenticated exchange; anything else — a transport failure, a
    /// body that is not JSON, a document without the `url` field — is the
    /// failure that ends this attempt, handed back exactly classified.
    pub fn step_info(&mut self, outcome: Result<String, Error>) -> (r: Option<Error>)
        requires
            old(self).model() is Info,
        ensures
            match outcome {
                Ok(body) => {
                    if json_text_wf(body@) && media_url_of(body@) is Some {
                        &&& r is None
                        &&& final(self).model() == (TrackFetchModel::Media {
                            req: ReqView {
                                url: media_url_of(body@)->Some_0,
                                query: Seq::<(Seq<char>, Seq<char>)>::empty(),
                                oauth_token: None::<Seq<char>>,
                            },
                        })
                    } else {
                        &&& *final(self) == *old(self)
                        &&& (if !json_text_wf(body@) {
                            r == Some(Error::JsonDecodeError)
                        } else {
                            r matches Some(e) && e matches Error::DataNotPresent(d) && d@
                                == "media file url in info json"@
                        })
                    }
                },
                Err(e) => r == Some(e) && *final(self) == *old(self),
            },
    {
        match outcome {
            Ok(body) => match media_url_from_info(body.as_str()) {
                Ok(url) => {
                    self.state = TrackFetchState::Media {
                        req: Request { url, query: Vec::new(), oauth_token: None },
                    };
                    proof {
                        assert(final(self).model()->Media_req.query =~= Seq::<
                            (Seq<char>, Seq<char>),
                        >::empty());
                        assert(final(self).model() =~= (TrackFetchModel::Media {
                            req: ReqView {
                                url: media_url_of(body@)->Some_0,
                                query: Seq::<(Seq<char>, Seq<char>)>::empty(),
                                oauth_token: None::<Seq<char>>,
                            },
                        }));
                    }
                    None
                },
                Err(e) => Some(e),
            },
            Err(e) => Some(e),
        }
    }

    /// Feed the outcome of the unauthenticated media exchange in: its bytes
    /// are the track's audio, and a failure ends this attempt.
    pub fn step_media(&mut self, outcome: Result<Vec<u8>, Error>) -> (r: Option<Error>)
        requires
            old(self).model() is Media,
        ensures
            match outcome {
                Ok(data) => r is None && final(self).model() == (TrackFetchModel::Done {
                    data: data@,
                }),
                Err(e) => r == Some(e) && *final(self) == *old(self),
            },
    {
        match outcome {
            Ok(data) => {
                self.state = TrackFetchState::Done { data };
                None
            },
            Err(e) => Some(e),
        }
    }

    /// The downloaded audio of a finished resolution.
    pub fn take_data(self) -> (d: Vec<u8>)
        requires
            self.model() is Done,
        ensures
            d@ == self.model()->Done_data,
    {
        match self.state {
            TrackFetchState::Done { data } => data,
            _ => {
                proof {
                    assert(false);
                }
                Vec::new()
            },
        }
    }
}

impl Track {
    /// Begin downloading the track's audio: select the transcoding variant
    /// deterministically — the first high-quality progressive one — and aim
    /// the two-hop resolution at its info URL.
    ///
    /// A missing media descriptor, a missing transcodings list, and the
    /// absence of a desired variant are three distinct, separately named
    /// failures.
    pub fn download(&self, zester: &Zester) -> (r: Result<TrackFetch, Error>)
        ensures
            match self.media {
                None => r matches Err(e) && e matches Error::DataNotPresent(d) && d@
                    == "media information"@,
                Some(m) => match m.transcodings {
                    None => r matches Err(e) && e matches Error::DataNotPresent(d) && d@
                        == "transcodings information"@,
                    Some(ts) => match desired_index(ts@) {
                        None => r matches Err(e) && e matches Error::DataNotPresent(d) && d@
                            == "desired transcoding"@,
                        Some(i) => r matches Ok(tf) && tf.model() == (TrackFetchModel::Info {
                            req: ReqView {
                                url: ts@[i].url@,
                                query: Seq::<(Seq<char>, Seq<char>)>::empty(),
                                oauth_token: Some(zester.oauth_model()),
                            },
                        }),
                    },
                },
            },
    {
        match &self.media {
            None => Err(Error::DataNotPresent("media information".to_owned())),
            Some(media) => match &media.transcodings {
                None => Err(Error::DataNotPresent("transcodings information".to_owned())),
                Some(ts) => match find_desired(ts) {
                    None => Err(Error::DataNotPresent("desired transcoding".to_owned())),
                    Some(i) => {
                        let req = Request {
                            url: ts[i].url.clone(),
                            query: Vec::new(),
                            oauth_token: Some(zester.oauth_token.clone()),
                        };
                        proof {
                            assert(req@.query =~= Seq::<(Seq<char>, Seq<char>)>::empty());
                        }
                        Ok(TrackFetch { state: TrackFetchState::Info { req } })
                    },
                },
            },
        }
    }
}

/// The event one download attempt reports and what the batch does next:
/// success finishes the track and advances, a transient server failure
/// pauses and retries the same track, any other failure is reported for the
/// track and the batch advances past it.
pub open spec fn attempt_model<'a>(
    track: &'a Track,
    pause_secs: u64,
    outcome: Result<Vec<u8>, Error>,
) -> (TracksAudioZestingEvent<'a>, LoopControl) {
    match outcome {
        Ok(data) => (
            TracksAudioZestingEvent::FinishTrackDownload { track_info: track, track_data: data },
            LoopControl::Next,
        ),
        Err(e) => {
            if is_server_error(e) {
                (
                    TracksAudioZestingEvent::PausedAfterServerError { time_secs: pause_secs },
                    LoopControl::Retry,
                )
            } else {
                (
                    TracksAudioZestingEvent::TrackDownloadError { track_info: track, err: e },
                    LoopControl::Next,
                )
            }
        },
    }
}

/// Walks a batch of tracks, downloading each one's audio in turn.
///
/// For the current track the caller reports the start event, resolves the
/// audio through a fresh [`TrackFetch`], and hands the attempt's outcome to
/// [`TracksAudioRun::attempt`] for the event and the control decision,
/// which [`TracksAudioRun::step`] then applies.
pub struct TracksAudioRun<'a> {
    tracks: Vec<&'a Track>,
    i: usize,
    pause_secs: u64,
}

impl<'a> TracksAudioRun<'a> {
    /// The tracks of the batch, in download order.
    pub closed spec fn tracks_model(&self) -> Seq<&'a Track> {
        self.tracks@
    }

    /// Which track is current.
    pub closed spec fn idx(&self) -> int {
        self.i as int
    }

    /// The configured pause after a transient server failure.
    pub closed spec fn pause_model(&self) -> u64 {
        self.pause_secs
    }

    /// The run's internal consistency.
    pub closed spec fn wf(&self) -> bool {
        self.i <= self.tracks@.len()
    }

    /// The one-time announcement of how many tracks will be downloaded.
    pub fn num_event(&self) -> (e: TracksAudioZestingEvent<'a>)
        ensures
            e == (TracksAudioZestingEvent::NumTracksToDownload {
                num: self.tracks_model().len() as u64,
            }),
    {
        TracksAudioZestingEvent::NumTracksToDownload { num: self.tracks.len() as u64 }
    }

    /// Whether every track has been dealt with.
    pub fn done(&self) -> (b: bool)
        requires
            self.wf(),
        ensures
            b == (self.idx() == self.tracks_model().len()),
    {
        self.i == self.tracks.len()
    }

    /// The track the current attempt downloads.
    pub fn current(&self) -> (t: &'a Track)
        requires
            self.wf(),
            self.idx() < self.tracks_model().len(),
        ensures
            t == self.tracks_model()[self.idx()],
    {
        self.tracks[self.i]
    }

    /// The start-of-download event of the current attempt; a retried track
    /// announces its start anew on every attempt.
    pub fn start_event(&self) -> (e: TracksAudioZestingEvent<'a>)
        requires
            self.wf(),
            self.idx() < self.tracks_model().len(),
        ensures
            e == (TracksAudioZestingEvent::StartTrackDownload {
                track_info: self.tracks_model()[self.idx()],
            }),
    {
        TracksAudioZestingEvent::StartTrackDownload { track_info: self.tracks[self.i] }
    }

    /// The event and the control decision of the current attempt's outcome.
    pub fn attempt(&self, outcome: Result<Vec<u8>, Error>) -> (r: (
        TracksAudioZestingEvent<'a>,
        LoopControl,
    ))
        requires
            self.wf(),
            self.idx() < self.tracks_model().len(),
        ensures
            r == attempt_model(self.tracks_model()[self.idx()], self.pause_model(), outcome),
    {
        match outcome {
            Ok(data) => (
                TracksAudioZestingEvent::FinishTrackDownload {
                    track_info: self.tracks[self.i],
                    track_data: data,
                },
                LoopControl::Next,
            ),
            Err(e) => {
                if is_server_error_exec(&e) {
                    (
                        TracksAudioZestingEvent::PausedAfterServerError {
                            time_secs: self.pause_secs,
                        },
                        LoopControl::Retry,
                    )
                } else {
                    (
                        TracksAudioZestingEvent::TrackDownloadError {
                            track_info: self.tracks[self.i],
                            err: e,
                        },
                        LoopControl::Next,
                    )
                }
            },
        }
    }

    /// Apply a control decision: stay on the track for a retry, move past
    /// it otherwise.
    pub fn step(&mut self, ctl: LoopControl)
        requires
            old(self).wf(),
            old(self).idx() < old(self).tracks_model().len(),
        ensures
            final(self).wf(),
            final(self).tracks_model() == old(self).tracks_model(),
            final(self).pause_model() == old(self).pause_model(),
            final(self).idx() == (match ctl {
                LoopControl::Next => old(self).idx() + 1,
                LoopControl::Retry => old(self).idx(),
            }),
    {
        match ctl {
            LoopControl::Next => {
                let n = self.tracks.len();
                proof {
                    assert(self.i < n);
                }
                self.i = self.i + 1;
            },
            LoopControl::Retry => {},
        }
    }
}

/// The fold of a whole batch: from track `i` on, consume one outcome per
/// attempt, collecting each attempt's event and advancing as its control
/// decision says.
pub open spec fn audio_run<'a>(
    tracks: Seq<&'a Track>,
    pause_secs: u64,
    i: int,
    outcomes: Seq<Result<Vec<u8>, Error>>,
) -> (int, Seq<TracksAudioZestingEvent<'a>>)
    decreases outcomes.len(),
{
    if outcomes.len() == 0 || i < 0 || i >= tracks.len() {
        (i, Seq::<TracksAudioZestingEvent<'a>>::empty())
    } else {
        let (e, c) = attempt_model(tracks[i], pause_secs, outcomes[0]);
        let i2 = if c is Next {
            i + 1
        } else {
            i
        };
        let (i_end, evs) = audio_run(tracks, pause_secs, i2, outcomes.skip(1));
        (i_end, seq![e] + evs)
    }
}

/// Per-item isolation: when no outcome is a transient server failure, a
/// batch starting at track `i` with one outcome per remaining track deals
/// with every one of them — each track gets exactly one finish-or-error
/// event of its own, so a failure on one track never prevents the tracks
/// after it from being attempted and reported.
pub proof fn lemma_per_item_isolation<'a>(
    tracks: Seq<&'a Track>,
    pause_secs: u64,
    i: int,
    outcomes: Seq<Result<Vec<u8>, Error>>,
)
    requires
        0 <= i <= tracks.len(),
        outcomes.len() == tracks.len() - i,
        forall|j: int|
            0 <= j < outcomes.len() ==> !(#[trigger] outcomes[j] matches Err(e)
                && is_server_error(e)),
    ensures
        ({
            let (i_end, evs) = audio_run(tracks, pause_secs, i, outcomes);
            &&& i_end == tracks.len()
            &&& evs.len() == outcomes.len()
            &&& forall|j: int|
                0 <= j < outcomes.len() ==> #[trigger] evs[j] == attempt_model(
                    tracks[i + j],
                    pause_secs,
                    outcomes[j],
                ).0
        }),
    decreases outcomes.len(),
{
    if outcomes.len() == 0 {
    } else {
        let (e, c) = attempt_model(tracks[i], pause_secs, outcomes[0]);
        assert(!(outcomes[0] matches Err(err) && is_server_error(err)));
        assert(c is Next);
        lemma_per_item_isolation(tracks, pause_secs, i + 1, outcomes.skip(1));
        let (i_end, evs_rest) = audio_run(tracks, pause_secs, i + 1, outcomes.skip(1));
        let (_, evs) = audio_run(tracks, pause_secs, i, outcomes);
        assert(evs =~= seq![e] + evs_rest);
        assert forall|j: int| 0 <= j < outcomes.len() implies #[trigger] evs[j] == attempt_model(
            tracks[i + j],
            pause_secs,
            outcomes[j],
        ).0 by {
            if j > 0 {
                assert(evs[j] == evs_rest[j - 1]);
                assert(outcomes.skip(1)[j - 1] == outcomes[j]);
            }
        }
    }
}

impl Zester {
    /// Begin downloading the audio of the given tracks, in order.
    pub fn tracks_audio<'a>(&self, tracks: Vec<&'a Track>) -> (r: TracksAudioRun<'a>)
        ensures
            r.wf(),
            r.tracks_model() == tracks@,
            r.idx() == 0,
            r.pause_model() == self.pause_model(),
    {
        TracksAudioRun { tracks, i: 0, pause_secs: self.pause_secs }
    }
}


/// The sum of the track counts of the given playlists.
pub open spec fn tracks_total(ps: Seq<&Playlist>) -> int
    decreases ps.len(),
{
    if ps.len() == 0 {
        0
    } else {
        tracks_total(ps.drop_last()) + ps.last().tracks->Some_0@.len()
    }
}

/// The track-count sum is never negative.
pub proof fn lemma_tracks_total_nonneg(ps: Seq<&Playlist>)
    ensures
        tracks_total(ps) >= 0,
    decreases ps.len(),
{
    if ps.len() > 0 {
        lemma_tracks_total_nonneg(ps.drop_last());
    }
}

/// A prefix's track-count sum never exceeds the whole's.
pub proof fn lemma_tracks_total_take(ps: Seq<&Playlist>, i: int)
    requires
        0 <= i <= ps.len(),
    ensures
        tracks_total(ps.take(i)) <= tracks_total(ps),
    decreases ps.len() - i,
{
    if i == ps.len() {
        assert(ps.take(i) =~= ps);
    } else {
        assert(ps.take(i + 1).drop_last() =~= ps.take(i));
        assert(ps.take(i + 1).last() == ps[i]);
        lemma_tracks_total_take(ps, i + 1);
    }
}

/// Walks a batch of playlists, downloading each one's tracks in turn
/// through an inner [`TracksAudioRun`].
pub struct PlaylistsAudioRun<'a> {
    playlists: Vec<&'a Playlist>,
    j: usize,
    tracks_num: u64,
}

impl<'a> PlaylistsAudioRun<'a> {
    /// The playlists of the batch, in download order.
    pub closed spec fn playlists_model(&self) -> Seq<&'a Playlist> {
        self.playlists@
    }

    /// Which playlist is current.
    pub closed spec fn idx(&self) -> int {
        self.j as int
    }

    /// The run's internal consistency: every playlist carries its tracks,
    /// and their total was counted at construction.
    pub closed spec fn wf(&self) -> bool {
        &&& self.j <= self.playlists@.len()
        &&& forall|k: int|
            0 <= k < self.playlists@.len() ==> (#[trigger] self.playlists@[k]).tracks is Some
        &&& self.tracks_num == tracks_total(self.playlists@)
    }

    /// The one-time announcement of how many playlists and tracks will be
    /// downloaded.
    pub fn num_event(&self) -> (e: PlaylistsAudioZestingEvent<'a>)
        requires
            self.wf(),
        ensures
            e == (PlaylistsAudioZestingEvent::NumItemsToDownload {
                playlists_num: self.playlists_model().len() as u64,
                tracks_num: tracks_total(self.playlists_model()) as u64,
            }),
    {
        PlaylistsAudioZestingEvent::NumItemsToDownload {
            playlists_num: self.playlists.len() as u64,
            tracks_num: self.tracks_num,
        }
    }

    /// Whether every playlist has been dealt with.
    pub fn done(&self) -> (b: bool)
        requires
            self.wf(),
        ensures
            b == (self.idx() == self.playlists_model().len()),
    {
        self.j == self.playlists.len()
    }

    /// The playlist the current pass downloads.
    pub fn current(&self) -> (p: &'a Playlist)
        requires
            self.wf(),
            self.idx() < self.playlists_model().len(),
        ensures
            p == self.playlists_model()[self.idx()],
    {
        self.playlists[self.j]
    }

    /// The start-of-playlist event of the current pass.
    pub fn start_event(&self) -> (e: PlaylistsAudioZestingEvent<'a>)
        requires
            self.wf(),
            self.idx() < self.playlists_model().len(),
        ensures
            e == (PlaylistsAudioZestingEvent::StartPlaylistDownload {
                playlist_info: self.playlists_model()[self.idx()],
            }),
    {
        PlaylistsAudioZestingEvent::StartPlaylistDownload { playlist_info: self.playlists[self.j] }
    }

    /// The end-of-playlist event of the current pass.
    pub fn finish_event(&self) -> (e: PlaylistsAudioZestingEvent<'a>)
        requires
            self.wf(),
            self.idx() < self.playlists_model().len(),
        ensures
            e == (PlaylistsAudioZestingEvent::FinishPlaylistDownload {
                playlist_info: self.playlists_model()[self.idx()],
            }),
    {
        PlaylistsAudioZestingEvent::FinishPlaylistDownload {
            playlist_info: self.playlists[self.j],
        }
    }

    /// References to the current playlist's tracks, for the inner run.
    pub fn current_track_refs(&self) -> (r: Vec<&'a Track>)
        requires
            self.wf(),
            self.idx() < self.playlists_model().len(),
        ensures
            r@.len() == self.playlists_model()[self.idx()].tracks->Some_0@.len(),
            forall|k: int|
                0 <= k < r@.len() ==> *(#[trigger] r@[k])
                    == self.playlists_model()[self.idx()].tracks->Some_0@[k],
    {
        let p: &'a Playlist = self.playlists[self.j];
        let ts: &'a Vec<Track> = match &p.tracks {
            Some(ts) => ts,
            None => vstd::pervasive::unreached(),
        };
        let n = ts.len();
        let mut r: Vec<&'a Track> = Vec::new();
        let mut k: usize = 0;
        while k < n
            invariant
                k <= n,
                n == ts@.len(),
                r@.len() == k,
                forall|m: int| 0 <= m < k ==> *(#[trigger] r@[m]) == ts@[m],
            decreases n - k,
        {
            r.push(&ts[k]);
            k = k + 1;
        }
        r
    }

    /// Move past the current playlist once its tracks are done.
    pub fn advance(&mut self)
        requires
            old(self).wf(),
            old(self).idx() < old(self).playlists_model().len(),
        ensures
            final(self).wf(),
            final(self).playlists_model() == old(self).playlists_model(),
            final(self).idx() == old(self).idx() + 1,
    {
        let n = self.playlists.len();
        proof {
            assert(self.j < n);
        }
        self.j = self.j + 1;
    }
}

/// Wrap a per-track event with the playlist it belongs to.
pub fn wrap_track_event<'a>(e: TracksAudioZestingEvent<'a>, p: &'a Playlist) -> (r:
    PlaylistsAudioZestingEvent<'a>)
    ensures
        r == PlaylistsAudioZestingEvent::TrackEvent(e, p),
{
    PlaylistsAudioZestingEvent::TrackEvent(e, p)
}

impl Zester {
    /// Begin downloading the audio files for the given likes: the most
    /// recent `num_recent` of them, or all of them when fewer exist.
    pub fn likes_audio<'a>(&self, likes: &'a Likes, num_recent: u64) -> (r: TracksAudioRun<'a>)
        ensures
            r.wf(),
            r.idx() == 0,
            r.pause_model() == self.pause_model(),
            r.tracks_model().len() == (if num_recent as int <= likes.collections@.len() {
                num_recent as int
            } else {
                likes.collections@.len() as int
            }),
            forall|k: int|
                0 <= k < r.tracks_model().len() ==> *(#[trigger] r.tracks_model()[k])
                    == likes.collections@[k].track,
    {
        let total = likes.collections.len();
        let limit: usize = if num_recent < total as u64 {
            num_recent as usize
        } else {
            total
        };
        let mut refs: Vec<&'a Track> = Vec::new();
        let mut k: usize = 0;
        while k < limit
            invariant
                k <= limit,
                limit <= likes.collections@.len(),
                refs@.len() == k,
                forall|m: int| 0 <= m < k ==> *(#[trigger] refs@[m]) == likes.collections@[m].track,
            decreases limit - k,
        {
            refs.push(&likes.collections[k].track);
            k = k + 1;
        }
        self.tracks_audio(refs)
    }

    /// Begin downloading the audio of the given playlists, each of which
    /// must carry its tracks (complete them first).
    pub fn playlists_audio<'a>(&self, playlists: Vec<&'a Playlist>) -> (r: PlaylistsAudioRun<'a>)
        requires
            forall|k: int|
                0 <= k < playlists@.len() ==> (#[trigger] playlists@[k]).tracks is Some,
            tracks_total(playlists@) <= u64::MAX,
        ensures
            r.wf(),
            r.playlists_model() == playlists@,
            r.idx() == 0,
    {
        let n = playlists.len();
        let mut total: u64 = 0;
        let mut k: usize = 0;
        proof {
            assert(playlists@.take(0) =~= Seq::<&Playlist>::empty());
        }
        while k < n
            invariant
                k <= n,
                n == playlists@.len(),
                forall|m: int|
                    0 <= m < playlists@.len() ==> (#[trigger] playlists@[m]).tracks is Some,
                tracks_total(playlists@) <= u64::MAX,
                total == tracks_total(playlists@.take(k as int)),
            decreases n - k,
        {
            let p = playlists[k];
            let ts_len = match &p.tracks {
                Some(ts) => ts.len(),
                None => vstd::pervasive::unreached(),
            };
            proof {
                assert(playlists@.take(k + 1 as int).drop_last() =~= playlists@.take(k as int));
                assert(playlists@.take(k + 1 as int).last() == playlists@[k as int]);
                lemma_tracks_total_nonneg(playlists@.take(k as int));
                lemma_tracks_total_take(playlists@, k + 1 as int);
            }
            total = total + ts_len as u64;
            k = k + 1;
        }
        proof {
            assert(playlists@.take(n as int) =~= playlists@);
        }
        PlaylistsAudioRun { playlists, j: 0, tracks_num: total }
    }
}


/// The reference-free image of one playlists-audio event: the playlist
/// named by its batch position, the wrapped per-track event abstract.
/// Each corresponds to an event the run's constructors build — the start
/// and finish events and [`wrap_track_event`]'s wrapping.
pub enum NestedAudioEvent<X> {
    NumItemsToDownload { playlists_num: u64, tracks_num: u64 },
    StartPlaylistDownload { entry: int },
    TrackEvent { entry: int, inner: X },
    FinishPlaylistDownload { entry: int },
}

/// The events one playlist's pass reports: its start, its per-track events
/// each wrapped with the playlist, its finish.
pub open spec fn wrapped_block<X>(e: int, inner: Seq<X>) -> Seq<NestedAudioEvent<X>> {
    seq![NestedAudioEvent::<X>::StartPlaylistDownload { entry: e }] + inner.map_values(
        |x: X| NestedAudioEvent::<X>::TrackEvent { entry: e, inner: x },
    ) + seq![NestedAudioEvent::<X>::FinishPlaylistDownload { entry: e }]
}

/// The fold of a whole playlists-audio batch from entry `j`: each
/// playlist's block in turn, given each playlist's inner event sequence.
pub open spec fn playlists_audio_run<X>(inners: Seq<Seq<X>>, j: int) -> Seq<NestedAudioEvent<X>>
    decreases inners.len() - j,
    when 0 <= j
{
    if j >= inners.len() {
        Seq::<NestedAudioEvent<X>>::empty()
    } else {
        wrapped_block(j, inners[j]) + playlists_audio_run(inners, j + 1)
    }
}

/// The playlist an event belongs to, if it belongs to one.
pub open spec fn nested_entry<X>(ev: NestedAudioEvent<X>) -> Option<int> {
    match ev {
        NestedAudioEvent::NumItemsToDownload { .. } => None,
        NestedAudioEvent::StartPlaylistDownload { entry } => Some(entry),
        NestedAudioEvent::TrackEvent { entry, .. } => Some(entry),
        NestedAudioEvent::FinishPlaylistDownload { entry } => Some(entry),
    }
}

/// Every event of a batch fold from entry `j` belongs to an entry at or
/// after `j`.
proof fn lemma_audio_run_entries_bound<X>(inners: Seq<Seq<X>>, j: int)
    requires
        0 <= j,
    ensures
        forall|k: int|
            0 <= k < playlists_audio_run(inners, j).len() ==> ((#[trigger] nested_entry(
                playlists_audio_run(inners, j)[k],
            )) matches Some(e) ==> j <= e < inners.len()),
    decreases inners.len() - j,
{
    if j >= inners.len() {
    } else {
        lemma_audio_run_entries_bound(inners, j + 1);
        let block = wrapped_block(j, inners[j]);
        let rest = playlists_audio_run(inners, j + 1);
        let evs = playlists_audio_run(inners, j);
        assert forall|k: int|
            0 <= k < evs.len() && (#[trigger] nested_entry(evs[k])) is Some implies j
            <= nested_entry(evs[k])->Some_0 < inners.len() by {
            if k < block.len() {
                assert(evs[k] == block[k]);
                lemma_wrapped_block_entries(j, inners[j], k);
            } else {
                assert(evs[k] == rest[k - block.len()]);
            }
        }
    }
}

/// Every event of one playlist's block belongs to that playlist; the block
/// opens with its start and closes with its finish.
proof fn lemma_wrapped_block_entries<X>(e: int, inner: Seq<X>, k: int)
    requires
        0 <= k < wrapped_block(e, inner).len(),
    ensures
        nested_entry(wrapped_block(e, inner)[k]) == Some(e),
        k == 0 <==> wrapped_block(e, inner)[k] == (NestedAudioEvent::<X>::StartPlaylistDownload {
            entry: e,
        }),
        k == wrapped_block(e, inner).len() - 1 <==> wrapped_block(e, inner)[k] == (
        NestedAudioEvent::<X>::FinishPlaylistDownload { entry: e }),
{
    let block = wrapped_block(e, inner);
    assert(block.len() == inner.len() + 2);
    if k == 0 {
    } else if k == block.len() - 1 {
        assert(block[k] == (NestedAudioEvent::<X>::FinishPlaylistDownload { entry: e }));
    } else {
        assert(block[k] == (NestedAudioEvent::<X>::TrackEvent {
            entry: e,
            inner: inner[k - 1],
        }));
    }
}

/// Strict nesting of a playlists-audio batch: playlists are walked one
/// after another, never interleaved — all of an earlier playlist's events
/// precede all of a later one's — and every wrapped track event stands
/// between its own playlist's start and finish.
pub proof fn lemma_playlists_audio_nesting<X>(inners: Seq<Seq<X>>)
    ensures
        ({
            let evs = playlists_audio_run(inners, 0);
            &&& forall|j1: int, j2: int|
                #![trigger nested_entry(evs[j1]), nested_entry(evs[j2])]
                0 <= j1 <= j2 < evs.len() ==> (nested_entry(evs[j1]) matches Some(e1) ==> (
                nested_entry(evs[j2]) matches Some(e2) ==> e1 <= e2))
            &&& forall|j: int|
                0 <= j < evs.len() ==> ((#[trigger] evs[j]) matches NestedAudioEvent::TrackEvent {
                    entry,
                    ..
                } ==> (exists|js: int|
                    0 <= js < j && evs[js] == (NestedAudioEvent::<X>::StartPlaylistDownload {
                        entry,
                    })) && (exists|jf: int|
                    j < jf < evs.len() && evs[jf] == (
                    NestedAudioEvent::<X>::FinishPlaylistDownload { entry })))
        }),
{
    lemma_audio_run_nested(inners, 0);
}

/// The nesting statement, generalized to a fold that starts at entry `j`.
proof fn lemma_audio_run_nested<X>(inners: Seq<Seq<X>>, j: int)
    requires
        0 <= j,
    ensures
        ({
            let evs = playlists_audio_run(inners, j);
            &&& forall|j1: int, j2: int|
                #![trigger nested_entry(evs[j1]), nested_entry(evs[j2])]
                0 <= j1 <= j2 < evs.len() ==> (nested_entry(evs[j1]) matches Some(e1) ==> (
                nested_entry(evs[j2]) matches Some(e2) ==> e1 <= e2))
            &&& forall|k: int|
                0 <= k < evs.len() ==> ((#[trigger] evs[k]) matches NestedAudioEvent::TrackEvent {
                    entry,
                    ..
                } ==> (exists|js: int|
                    0 <= js < k && evs[js] == (NestedAudioEvent::<X>::StartPlaylistDownload {
                        entry,
                    })) && (exists|jf: int|
                    k < jf < evs.len() && evs[jf] == (
                    NestedAudioEvent::<X>::FinishPlaylistDownload { entry })))
        }),
    decreases inners.len() - j,
{
    if j >= inners.len() {
    } else {
        lemma_audio_run_nested(inners, j + 1);
        lemma_audio_run_entries_bound(inners, j + 1);
        let block = wrapped_block(j, inners[j]);
        let rest = playlists_audio_run(inners, j + 1);
        let evs = playlists_audio_run(inners, j);
        assert(block.len() == inners[j].len() + 2);
        assert forall|j1: int, j2: int|
            #![trigger nested_entry(evs[j1]), nested_entry(evs[j2])]
            0 <= j1 <= j2 < evs.len() implies (nested_entry(evs[j1]) matches Some(e1) ==> (
        nested_entry(evs[j2]) matches Some(e2) ==> e1 <= e2)) by {
            if nested_entry(evs[j1]) is Some && nested_entry(evs[j2]) is Some {
                if j1 < block.len() {
                    assert(evs[j1] == block[j1]);
                    lemma_wrapped_block_entries(j, inners[j], j1);
                    if j2 < block.len() {
                        assert(evs[j2] == block[j2]);
                        lemma_wrapped_block_entries(j, inners[j], j2);
                    } else {
                        assert(evs[j2] == rest[j2 - block.len()]);
                    }
                } else {
                    assert(evs[j1] == rest[j1 - block.len()]);
                    assert(evs[j2] == rest[j2 - block.len()]);
                }
            }
        }
        assert forall|k: int|
            0 <= k < evs.len() && (#[trigger] evs[k]) is TrackEvent implies (exists|js: int|
            0 <= js < k && evs[js] == (NestedAudioEvent::<X>::StartPlaylistDownload {
                entry: evs[k]->TrackEvent_entry,
            })) && (exists|jf: int|
            k < jf < evs.len() && evs[jf] == (NestedAudioEvent::<X>::FinishPlaylistDownload {
                entry: evs[k]->TrackEvent_entry,
            })) by {
            let entry = evs[k]->TrackEvent_entry;
            if k < block.len() {
                assert(evs[k] == block[k]);
                lemma_wrapped_block_entries(j, inners[j], k);
                assert(entry == j);
                assert(evs[0] == block[0]);
                lemma_wrapped_block_entries(j, inners[j], 0);
                assert(evs[0] == (NestedAudioEvent::<X>::StartPlaylistDownload { entry }));
                assert(0 < k);
                lemma_wrapped_block_entries(j, inners[j], block.len() - 1);
                assert(evs[block.len() - 1] == (NestedAudioEvent::<X>::FinishPlaylistDownload {
                    entry,
                }));
                assert(k < block.len() - 1);
            } else {
                assert(evs[k] == rest[k - block.len()]);
                let js_r = choose|js_r: int|
                    0 <= js_r < k - block.len() && rest[js_r] == (
                    NestedAudioEvent::<X>::StartPlaylistDownload { entry });
                assert(evs[block.len() + js_r] == (NestedAudioEvent::<X>::StartPlaylistDownload {
                    entry,
                }));
                let jf_r = choose|jf_r: int|
                    k - block.len() < jf_r < rest.len() && rest[jf_r] == (
                    NestedAudioEvent::<X>::FinishPlaylistDownload { entry });
                assert(evs[block.len() + jf_r] == (NestedAudioEvent::<X>::FinishPlaylistDownload {
                    entry,
                }));
            }
        }
    }
}

} // verus!
