//! The second half of the playlists operation: turning each listed
//! playlist's shallow metadata into its full record.
//!
//! For every meta entry the caller fetches the playlist's full
//! representation from its rewritten `uri`, completes its tracks through
//! the batcher, and pushes the result; a transient server failure retries
//! the same entry, any other failure is reported for that entry alone and
//! the walk moves on.

use vstd::prelude::*;
use crate::{ClientCfg, ClientCfgView, Error, Request, ReqView, LoopControl, is_server_error, is_server_error_exec, Zester};
use crate::api::Playlists;
use crate::api::playlists::{Playlist, PlaylistCollection, PlaylistMeta};
use crate::events::PlaylistsZestingEvent;
use crate::paginate::PageStep;
use crate::text::{replace_all, replace_all_str};

verus! {

/// The request that fetches a playlist's full record: the listing's `uri`
/// with its host rewritten to the lookup endpoint's, asking for the full
/// representation, authenticated, with the client id attached.
pub open spec fn fill_request_view(cfg: ClientCfgView, uri: Seq<char>) -> ReqView {
    ReqView {
        url: replace_all(uri, "api."@, "api-v2."@),
        query: seq![("representation"@, "full"@), ("client_id"@, cfg.client_id)],
        oauth_token: Some(cfg.oauth_token),
    }
}

/// Walks the listed playlists, fetching and completing the full record of
/// each in turn.
pub struct PlaylistsFill {
    cfg: ClientCfg,
    metas: Vec<PlaylistMeta>,
    i: usize,
    out: Vec<Playlist>,
}

impl PlaylistsFill {
    /// The configuration the walk was built with.
    pub closed spec fn cfg_view(&self) -> ClientCfgView {
        self.cfg@
    }

    /// The metadata entries the walk visits, in listing order.
    pub closed spec fn metas_model(&self) -> Seq<PlaylistMeta> {
        self.metas@
    }

    /// Which entry is current.
    pub closed spec fn idx(&self) -> int {
        self.i as int
    }

    /// The full playlists pushed so far, in visiting order.
    pub closed spec fn out_model(&self) -> Seq<Playlist> {
        self.out@
    }

    /// The walk's internal consistency.
    pub closed spec fn wf(&self) -> bool {
        &&& self.i <= self.metas@.len()
        &&& forall|k: int| 0 <= k < self.metas@.len() ==> (#[trigger] self.metas@[k]).uri is Some
    }

    /// Whether every entry has been dealt with.
    pub fn done(&self) -> (b: bool)
        requires
            self.wf(),
        ensures
            b == (self.idx() == self.metas_model().len()),
    {
        self.i == self.metas.len()
    }

    /// The start-of-download event of the current entry; a retried entry
    /// announces its start anew on every attempt.
    pub fn start_event(&self) -> (e: PlaylistsZestingEvent<'_>)
        requires
            self.wf(),
            self.idx() < self.metas_model().len(),
        ensures
            e matches PlaylistsZestingEvent::StartPlaylistInfoDownload { playlist_meta }
                && *playlist_meta == self.metas_model()[self.idx()],
    {
        PlaylistsZestingEvent::StartPlaylistInfoDownload { playlist_meta: &self.metas[self.i] }
    }

    /// The exchange that fetches the current entry's full record.
    pub fn info_request(&self) -> (r: Request)
        requires
            self.wf(),
            self.idx() < self.metas_model().len(),
        ensures
            r@ =~= fill_request_view(
                self.cfg_view(),
                self.metas_model()[self.idx()].uri->Some_0@,
            ),
    {
        let uri = match &self.metas[self.i].uri {
            Some(u) => u,
            None => vstd::pervasive::unreached(),
        };
        proof {
            reveal_strlit("api.");
        }
        let url = replace_all_str(uri.as_str(), "api.", "api-v2.");
        let mut query: Vec<(String, String)> = Vec::new();
        query.push(("representation".to_owned(), "full".to_owned()));
        query.push(("client_id".to_owned(), self.cfg.client_id.clone()));
        let r = Request { url, query, oauth_token: Some(self.cfg.oauth_token.clone()) };
        proof {
            assert(r@.query =~= seq![("representation"@, "full"@), (
                "client_id"@,
                self.cfg_view().client_id,
            )]);
        }
        r
    }

    /// The event and the control decision of a failed fetch of the current
    /// entry: a transient server failure pauses and retries the same entry,
    /// anything else is reported for the entry and the walk moves past it.
    pub fn attempt_failure(&self, err: Error) -> (r: (PlaylistsZestingEvent<'_>, LoopControl))
        requires
            self.wf(),
            self.idx() < self.metas_model().len(),
        ensures
            if is_server_error(err) {
                r.0 == (PlaylistsZestingEvent::PausedAfterServerError {
                    time_secs: self.cfg_view().pause_secs,
                }) && r.1 is Retry
            } else {
                (r.0 matches PlaylistsZestingEvent::PlaylistInfoDownloadError {
                    playlist_meta,
                    err: e,
                } && *playlist_meta == self.metas_model()[self.idx()] && e == err) && r.1 is Next
            },
    {
        if is_server_error_exec(&err) {
            (
                PlaylistsZestingEvent::PausedAfterServerError { time_secs: self.cfg.pause_secs },
                LoopControl::Retry,
            )
        } else {
            (
                PlaylistsZestingEvent::PlaylistInfoDownloadError {
                    playlist_meta: &self.metas[self.i],
                    err,
                },
                LoopControl::Next,
            )
        }
    }

    /// The event reporting that the current entry's completion pass failed;
    /// the playlist is still pushed, possibly incomplete.
    pub fn completion_error_event(&self, err: Error) -> (e: PlaylistsZestingEvent<'_>)
        requires
            self.wf(),
            self.idx() < self.metas_model().len(),
        ensures
            e matches PlaylistsZestingEvent::PlaylistInfoCompletionError { playlist_meta, err: e2 }
                && *playlist_meta == self.metas_model()[self.idx()] && e2 == err,
    {
        PlaylistsZestingEvent::PlaylistInfoCompletionError {
            playlist_meta: &self.metas[self.i],
            err,
        }
    }

    /// The event closing the current entry's successful download.
    pub fn finish_event(&self) -> (e: PlaylistsZestingEvent<'_>)
        requires
            self.wf(),
            self.idx() < self.metas_model().len(),
        ensures
            e matches PlaylistsZestingEvent::FinishPlaylistInfoDownload { playlist_meta }
                && *playlist_meta == self.metas_model()[self.idx()],
    {
        PlaylistsZestingEvent::FinishPlaylistInfoDownload { playlist_meta: &self.metas[self.i] }
    }

    /// Move past the current entry without a playlist: its download failed
    /// fatally and was reported.
    pub fn skip_current(&mut self)
        requires
            old(self).wf(),
            old(self).idx() < old(self).metas_model().len(),
        ensures
            final(self).wf(),
            final(self).cfg_view() == old(self).cfg_view(),
            final(self).metas_model() == old(self).metas_model(),
            final(self).out_model() == old(self).out_model(),
            final(self).idx() == old(self).idx() + 1,
    {
        let n = self.metas.len();
        proof {
            assert(self.i < n);
        }
        self.i = self.i + 1;
    }

    /// Push the current entry's full playlist and move past it.
    pub fn push_current(&mut self, playlist: Playlist)
        requires
            old(self).wf(),
            old(self).idx() < old(self).metas_model().len(),
        ensures
            final(self).wf(),
            final(self).cfg_view() == old(self).cfg_view(),
            final(self).metas_model() == old(self).metas_model(),
            final(self).out_model() =~= old(self).out_model().push(playlist),
            final(self).idx() == old(self).idx() + 1,
    {
        let n = self.metas.len();
        proof {
            assert(self.i < n);
        }
        self.out.push(playlist);
        self.i = self.i + 1;
    }
}

/// The event closing the metadata phase: all playlist metadata arrived.
pub fn meta_done_event() -> (e: PlaylistsZestingEvent<'static>)
    ensures
        e == PlaylistsZestingEvent::FinishPlaylistMetaInfoDownloading,
{
    PlaylistsZestingEvent::FinishPlaylistMetaInfoDownloading
}

impl Playlists {
    /// The playlists of a finished walk.
    pub fn assemble(fill: PlaylistsFill) -> (r: Playlists)
        requires
            fill.wf(),
            fill.idx() == fill.metas_model().len(),
        ensures
            r.playlists@ =~= fill.out_model(),
    {
        Playlists { playlists: fill.out }
    }
}

impl Zester {
    /// Begin the second half of the playlists operation: walk the listed
    /// entries — each of which must name a playlist with a `uri` — fetching
    /// and completing the full record of each.
    pub fn playlists_fill(&self, collections: Vec<PlaylistCollection>) -> (r: PlaylistsFill)
        requires
            forall|k: int|
                0 <= k < collections@.len() ==> ((#[trigger] collections@[k]).playlist matches Some(
                    m,
                ) && m.uri is Some),
        ensures
            r.wf(),
            r.cfg_view() =~= self.cfg_model(),
            r.idx() == 0,
            r.out_model() =~= Seq::<Playlist>::empty(),
            r.metas_model().len() == collections@.len(),
            forall|k: int|
                0 <= k < collections@.len() ==> #[trigger] r.metas_model()[k]
                    == collections@[k].playlist->Some_0,
    {
        let ghost col0 = collections@;
        let mut src = collections;
        let mut metas: Vec<PlaylistMeta> = Vec::new();
        let ghost mut j: int = 0;
        while src.len() > 0
            invariant
                0 <= j <= col0.len(),
                src@ =~= col0.skip(j),
                metas@.len() == j,
                forall|k: int|
                    0 <= k < col0.len() ==> ((#[trigger] col0[k]).playlist matches Some(m)
                        && m.uri is Some),
                forall|k: int| 0 <= k < j ==> #[trigger] metas@[k] == col0[k].playlist->Some_0,
            decreases src@.len(),
        {
            let c = src.remove(0);
            proof {
                assert(c == col0.skip(j)[0]);
                assert(col0.skip(j)[0] == col0[j]);
                assert(src@ =~= col0.skip(j).skip(1));
                assert(col0.skip(j).skip(1) =~= col0.skip(j + 1));
            }
            match c.playlist {
                Some(m) => {
                    metas.push(m);
                },
                None => {
                    proof {
                        assert(false);
                    }
                },
            }
            proof {
                j = j + 1;
            }
        }
        proof {
            assert(col0.skip(j).len() == 0);
            assert(j == col0.len());
        }
        PlaylistsFill { cfg: self.cfg(), metas, i: 0, out: Vec::new() }
    }
}


/// The reference-free image of one playlists-operation event, the entry it
/// concerns named by its listing position.  The run model below folds over
/// these; each corresponds to the event the machine's constructors build.
pub enum PlaylistsEventModel {
    MorePlaylistMetaInfoDownloaded { count: i64 },
    FinishPlaylistMetaInfoDownloading,
    StartPlaylistInfoDownload { entry: int },
    FinishPlaylistInfoDownload { entry: int },
    PlaylistInfoDownloadError { entry: int, err: Error },
    PlaylistInfoCompletionError { entry: int, err: Error },
    PausedAfterServerError { time_secs: u64 },
}

/// One attempt at an entry of the walk: either the full record arrived —
/// with its completion pass's failure, if it had one — or the fetch failed.
pub enum FillOutcome {
    Fetched { playlist: Playlist, completion_err: Option<Error> },
    Failed { err: Error },
}

/// The events one attempt at entry `e` reports, in order, and whether the
/// walk moves past the entry: a fetched record closes the entry (after the
/// completion failure, if any, was reported); a transient server failure
/// pauses and stays; any other failure is reported and the walk moves on.
pub open spec fn fill_attempt_model(e: int, pause_secs: u64, o: FillOutcome) -> (
    Seq<PlaylistsEventModel>,
    bool,
) {
    match o {
        FillOutcome::Fetched { playlist, completion_err } => {
            let closing = match completion_err {
                Some(err) => seq![
                    PlaylistsEventModel::PlaylistInfoCompletionError { entry: e, err },
                    PlaylistsEventModel::FinishPlaylistInfoDownload { entry: e },
                ],
                None => seq![PlaylistsEventModel::FinishPlaylistInfoDownload { entry: e }],
            };
            (seq![PlaylistsEventModel::StartPlaylistInfoDownload { entry: e }] + closing, true)
        },
        FillOutcome::Failed { err } => {
            if is_server_error(err) {
                (
                    seq![
                        PlaylistsEventModel::StartPlaylistInfoDownload { entry: e },
                        PlaylistsEventModel::PausedAfterServerError { time_secs: pause_secs },
                    ],
                    false,
                )
            } else {
                (
                    seq![
                        PlaylistsEventModel::StartPlaylistInfoDownload { entry: e },
                        PlaylistsEventModel::PlaylistInfoDownloadError { entry: e, err },
                    ],
                    true,
                )
            }
        },
    }
}

/// The fold of the walk over `n` entries from entry `i`: one attempt per
/// outcome, its events collected, the walk standing where the attempts
/// left it.
pub open spec fn fill_run(n: int, pause_secs: u64, i: int, outcomes: Seq<FillOutcome>) -> (
    int,
    Seq<PlaylistsEventModel>,
)
    decreases outcomes.len(),
{
    if outcomes.len() == 0 || i < 0 || i >= n {
        (i, Seq::<PlaylistsEventModel>::empty())
    } else {
        let (evs, advances) = fill_attempt_model(i, pause_secs, outcomes[0]);
        let i2 = if advances {
            i + 1
        } else {
            i
        };
        let (i_end, rest) = fill_run(n, pause_secs, i2, outcomes.skip(1));
        (i_end, evs + rest)
    }
}

/// The metadata-phase image of one pagination instruction.
pub open spec fn meta_step_event_model(step: PageStep) -> Option<PlaylistsEventModel> {
    match step {
        PageStep::Next { count } => Some(
            PlaylistsEventModel::MorePlaylistMetaInfoDownloaded { count: count as i64 },
        ),
        PageStep::Done { count } => Some(
            PlaylistsEventModel::MorePlaylistMetaInfoDownloaded { count: count as i64 },
        ),
        PageStep::Pause { time_secs } => Some(
            PlaylistsEventModel::PausedAfterServerError { time_secs },
        ),
        PageStep::Abort { .. } => None,
    }
}

/// The events of the metadata phase: each pagination instruction's image.
pub open spec fn meta_page_events(steps: Seq<PageStep>) -> Seq<PlaylistsEventModel>
    decreases steps.len(),
{
    if steps.len() == 0 {
        Seq::<PlaylistsEventModel>::empty()
    } else {
        (match meta_step_event_model(steps[0]) {
            Some(e) => seq![e],
            None => Seq::<PlaylistsEventModel>::empty(),
        }) + meta_page_events(steps.skip(1))
    }
}

/// Every event the playlists operation reports, in order: the metadata
/// pages' progress, the one phase-closing marker, then the full-record
/// walk's events.
pub open spec fn playlists_events_model(
    steps: Seq<PageStep>,
    n: int,
    pause_secs: u64,
    outcomes: Seq<FillOutcome>,
) -> Seq<PlaylistsEventModel> {
    meta_page_events(steps) + seq![PlaylistsEventModel::FinishPlaylistMetaInfoDownloading]
        + fill_run(n, pause_secs, 0, outcomes).1
}

/// Metadata-phase events are only progress counts and pauses.
proof fn lemma_meta_page_events_vocab(steps: Seq<PageStep>)
    ensures
        forall|j: int|
            0 <= j < meta_page_events(steps).len() ==> {
                let ev = #[trigger] meta_page_events(steps)[j];
                ev is MorePlaylistMetaInfoDownloaded || ev is PausedAfterServerError
            },
    decreases steps.len(),
{
    if steps.len() > 0 {
        lemma_meta_page_events_vocab(steps.skip(1));
        let head = match meta_step_event_model(steps[0]) {
            Some(e) => seq![e],
            None => Seq::<PlaylistsEventModel>::empty(),
        };
        let rest = meta_page_events(steps.skip(1));
        assert forall|j: int| 0 <= j < meta_page_events(steps).len() implies {
            let ev = #[trigger] meta_page_events(steps)[j];
            ev is MorePlaylistMetaInfoDownloaded || ev is PausedAfterServerError
        } by {
            if j >= head.len() {
                assert(meta_page_events(steps)[j] == rest[j - head.len()]);
            }
        }
    }
}

/// Walk-phase events only ever concern entries; neither metadata progress
/// nor the phase-closing marker appears among them.
proof fn lemma_fill_run_vocab(n: int, pause_secs: u64, i: int, outcomes: Seq<FillOutcome>)
    ensures
        forall|j: int|
            0 <= j < fill_run(n, pause_secs, i, outcomes).1.len() ==> {
                let ev = #[trigger] fill_run(n, pause_secs, i, outcomes).1[j];
                ||| ev is StartPlaylistInfoDownload
                ||| ev is FinishPlaylistInfoDownload
                ||| ev is PlaylistInfoDownloadError
                ||| ev is PlaylistInfoCompletionError
                ||| ev is PausedAfterServerError
            },
    decreases outcomes.len(),
{
    if outcomes.len() == 0 || i < 0 || i >= n {
    } else {
        let (head, advances) = fill_attempt_model(i, pause_secs, outcomes[0]);
        let i2 = if advances {
            i + 1
        } else {
            i
        };
        lemma_fill_run_vocab(n, pause_secs, i2, outcomes.skip(1));
        let rest = fill_run(n, pause_secs, i2, outcomes.skip(1)).1;
        assert forall|j: int| 0 <= j < fill_run(n, pause_secs, i, outcomes).1.len() implies {
            let ev = #[trigger] fill_run(n, pause_secs, i, outcomes).1[j];
            ||| ev is StartPlaylistInfoDownload
            ||| ev is FinishPlaylistInfoDownload
            ||| ev is PlaylistInfoDownloadError
            ||| ev is PlaylistInfoCompletionError
            ||| ev is PausedAfterServerError
        } by {
            if j >= head.len() {
                assert(fill_run(n, pause_secs, i, outcomes).1[j] == rest[j - head.len()]);
            }
        }
    }
}

/// The phase-closing marker stands exactly once in the operation's events,
/// after every metadata progress event and before every per-entry event.
pub proof fn lemma_meta_done_once(
    steps: Seq<PageStep>,
    n: int,
    pause_secs: u64,
    outcomes: Seq<FillOutcome>,
)
    ensures
        ({
            let evs = playlists_events_model(steps, n, pause_secs, outcomes);
            let k = meta_page_events(steps).len() as int;
            &&& evs[k] is FinishPlaylistMetaInfoDownloading
            &&& forall|j: int|
                0 <= j < evs.len() && (#[trigger] evs[j]) is FinishPlaylistMetaInfoDownloading
                    ==> j == k
            &&& forall|j: int|
                0 <= j < k ==> ((#[trigger] evs[j]) is MorePlaylistMetaInfoDownloaded
                    || evs[j] is PausedAfterServerError)
            &&& forall|j: int|
                k < j < evs.len() ==> {
                    let ev = #[trigger] evs[j];
                    ||| ev is StartPlaylistInfoDownload
                    ||| ev is FinishPlaylistInfoDownload
                    ||| ev is PlaylistInfoDownloadError
                    ||| ev is PlaylistInfoCompletionError
                    ||| ev is PausedAfterServerError
                }
        }),
{
    lemma_meta_page_events_vocab(steps);
    lemma_fill_run_vocab(n, pause_secs, 0, outcomes);
    let pages = meta_page_events(steps);
    let walk = fill_run(n, pause_secs, 0, outcomes).1;
    let evs = playlists_events_model(steps, n, pause_secs, outcomes);
    let k = pages.len() as int;
    assert(evs[k] is FinishPlaylistMetaInfoDownloading);
    assert forall|j: int|
        0 <= j < evs.len() && (#[trigger] evs[j]) is FinishPlaylistMetaInfoDownloading implies j
        == k by {
        if j < k {
            assert(evs[j] == pages[j]);
        } else if j > k {
            assert(evs[j] == walk[j - k - 1]);
        }
    }
    assert forall|j: int| 0 <= j < k implies ((#[trigger] evs[j]) is MorePlaylistMetaInfoDownloaded
        || evs[j] is PausedAfterServerError) by {
        assert(evs[j] == pages[j]);
    }
    assert forall|j: int| k < j < evs.len() implies {
        let ev = #[trigger] evs[j];
        ||| ev is StartPlaylistInfoDownload
        ||| ev is FinishPlaylistInfoDownload
        ||| ev is PlaylistInfoDownloadError
        ||| ev is PlaylistInfoCompletionError
        ||| ev is PausedAfterServerError
    } by {
        assert(evs[j] == walk[j - k - 1]);
    }
}

/// The entry an event closes or fails, if it does either.
pub open spec fn entry_concluded(ev: PlaylistsEventModel) -> Option<int> {
    match ev {
        PlaylistsEventModel::FinishPlaylistInfoDownload { entry } => Some(entry),
        PlaylistsEventModel::PlaylistInfoDownloadError { entry, .. } => Some(entry),
        PlaylistsEventModel::PlaylistInfoCompletionError { entry, .. } => Some(entry),
        _ => None,
    }
}

/// Every event that closes or fails an entry follows that entry's own
/// start event: the walk opens each entry before reporting on it.
pub proof fn lemma_fill_start_precedes(n: int, pause_secs: u64, i: int, outcomes: Seq<FillOutcome>)
    ensures
        ({
            let evs = fill_run(n, pause_secs, i, outcomes).1;
            forall|j: int|
                0 <= j < evs.len() ==> ((#[trigger] entry_concluded(evs[j])) matches Some(e)
                    ==> exists|j2: int|
                    0 <= j2 < j && evs[j2] == (PlaylistsEventModel::StartPlaylistInfoDownload {
                        entry: e,
                    }))
        }),
    decreases outcomes.len(),
{
    if outcomes.len() == 0 || i < 0 || i >= n {
    } else {
        let (head, advances) = fill_attempt_model(i, pause_secs, outcomes[0]);
        let i2 = if advances {
            i + 1
        } else {
            i
        };
        lemma_fill_start_precedes(n, pause_secs, i2, outcomes.skip(1));
        let rest = fill_run(n, pause_secs, i2, outcomes.skip(1)).1;
        let evs = fill_run(n, pause_secs, i, outcomes).1;
        assert(evs =~= head + rest);
        assert(head[0] == (PlaylistsEventModel::StartPlaylistInfoDownload { entry: i }));
        assert forall|j: int|
            0 <= j < evs.len() && (#[trigger] entry_concluded(evs[j])) is Some implies exists|j2: int|
            0 <= j2 < j && evs[j2] == (PlaylistsEventModel::StartPlaylistInfoDownload {
                entry: entry_concluded(evs[j])->Some_0,
            }) by {
            let e = entry_concluded(evs[j])->Some_0;
            if j < head.len() {
                assert(evs[j] == head[j]);
                assert(e == i);
                assert(evs[0] == (PlaylistsEventModel::StartPlaylistInfoDownload { entry: e }));
            } else {
                assert(evs[j] == rest[j - head.len()]);
                let j2r = choose|j2r: int|
                    0 <= j2r < j - head.len() && rest[j2r] == (
                    PlaylistsEventModel::StartPlaylistInfoDownload { entry: e });
                assert(evs[head.len() + j2r] == (PlaylistsEventModel::StartPlaylistInfoDownload {
                    entry: e,
                }));
            }
        }
    }
}

} // verus!
