//! Backfilling incomplete track records.
//!
//! Playlist listings habitually omit the media descriptor of their tracks,
//! and no audio download can succeed without it.  The batcher gathers the
//! ids of the incomplete tracks, splits them into fixed-size chunks, has
//! the caller look each chunk up, and merges the returned records back into
//! the playlist by id — original order kept, no entry dropped, an id the
//! lookups never answered for keeping its original incomplete record.

use vstd::prelude::*;
use crate::{Error, is_server_error, is_server_error_exec};
use crate::api::likes::Track;
use crate::api::playlists::Playlist;

verus! {

/// How many ids one batch lookup carries: enough to stay under the
/// platform's practical URL-length limit.
pub const CHUNK_SIZE: usize = 10;

/// The id of a track, as the batch lookup's unsigned parameter.
pub open spec fn track_uid(t: Track) -> u64 {
    t.id->Some_0 as u64
}

/// The ids of the tracks that lack a media descriptor, in playlist order.
pub open spec fn incomplete_ids_spec(tracks: Seq<Track>) -> Seq<u64>
    decreases tracks.len(),
{
    if tracks.len() == 0 {
        Seq::<u64>::empty()
    } else {
        incomplete_ids_spec(tracks.drop_last()) + (if tracks.last().media is None {
            seq![track_uid(tracks.last())]
        } else {
            Seq::<u64>::empty()
        })
    }
}

/// The ids split into chunks of `sz`, in order; every chunk is full except
/// possibly the last.
pub open spec fn chunks_of(ids: Seq<u64>, sz: int) -> Seq<Seq<u64>>
    decreases ids.len(),
    when sz >= 1
{
    if ids.len() == 0 {
        Seq::<Seq<u64>>::empty()
    } else if ids.len() <= sz {
        seq![ids]
    } else {
        seq![ids.take(sz)] + chunks_of(ids.skip(sz), sz)
    }
}

/// The concatenation of a sequence of chunks.
pub open spec fn chunks_concat(cs: Seq<Seq<u64>>) -> Seq<u64>
    decreases cs.len(),
{
    if cs.len() == 0 {
        Seq::<u64>::empty()
    } else {
        cs[0] + chunks_concat(cs.skip(1))
    }
}

/// Chunking correctness: the chunks concatenate back to the ids, every
/// chunk is non-empty and at most `sz` long, and every chunk before the
/// last is exactly `sz` long.
pub proof fn lemma_chunks_of(ids: Seq<u64>, sz: int)
    requires
        sz >= 1,
    ensures
        ({
            let cs = chunks_of(ids, sz);
            &&& chunks_concat(cs) =~= ids
            &&& forall|i: int| 0 <= i < cs.len() ==> 1 <= #[trigger] cs[i].len() <= sz
            &&& forall|i: int| 0 <= i < cs.len() - 1 ==> #[trigger] cs[i].len() == sz
            &&& (ids.len() == 0 <==> cs.len() == 0)
        }),
    decreases ids.len(),
{
    let cs = chunks_of(ids, sz);
    if ids.len() == 0 {
    } else if ids.len() <= sz {
        assert(cs =~= seq![ids]);
        assert(chunks_concat(cs.skip(1)) =~= Seq::<u64>::empty());
        assert(chunks_concat(cs) =~= ids);
    } else {
        lemma_chunks_of(ids.skip(sz), sz);
        let rest = chunks_of(ids.skip(sz), sz);
        assert(cs =~= seq![ids.take(sz)] + rest);
        assert(cs.skip(1) =~= rest);
        assert(chunks_concat(cs) =~= ids.take(sz) + chunks_concat(rest));
        assert(ids.take(sz) + ids.skip(sz) =~= ids);
        assert forall|i: int| 0 <= i < cs.len() implies 1 <= #[trigger] cs[i].len() <= sz by {
            if i > 0 {
                assert(cs[i] == rest[i - 1]);
            }
        }
        assert forall|i: int| 0 <= i < cs.len() - 1 implies #[trigger] cs[i].len() == sz by {
            if i > 0 {
                assert(cs[i] == rest[i - 1]);
            }
        }
    }
}

/// The id-keyed map of a sequence of fetched records; a later record with
/// the same id supersedes an earlier one.
pub open spec fn fetched_map(s: Seq<Track>) -> Map<i64, Track>
    decreases s.len(),
{
    if s.len() == 0 {
        Map::<i64, Track>::empty()
    } else {
        fetched_map(s.drop_last()).insert(s.last().id->Some_0, s.last())
    }
}

/// The merge of fetched records into a playlist's tracks: each track whose
/// id the map answers for is replaced by the fetched record, each use
/// consuming the record; every other track stays as it was.  Order and
/// length are untouched.
pub open spec fn merge_spec(tracks: Seq<Track>, m: Map<i64, Track>) -> Seq<Track>
    decreases tracks.len(),
{
    if tracks.len() == 0 {
        Seq::<Track>::empty()
    } else {
        let t = tracks[0];
        let k = t.id->Some_0;
        if m.contains_key(k) {
            seq![m[k]] + merge_spec(tracks.skip(1), m.remove(k))
        } else {
            seq![t] + merge_spec(tracks.skip(1), m)
        }
    }
}

/// Batch completion is idempotent on a complete playlist: with every track
/// already carrying a media descriptor there is nothing to look up — no
/// incomplete ids, hence no chunks — and the merge leaves the tracks
/// exactly as they were, so a second pass changes nothing either.
pub proof fn lemma_completion_idempotent(tracks: Seq<Track>)
    requires
        forall|i: int| 0 <= i < tracks.len() ==> (#[trigger] tracks[i]).media is Some,
    ensures
        incomplete_ids_spec(tracks) =~= Seq::<u64>::empty(),
        chunks_of(incomplete_ids_spec(tracks), CHUNK_SIZE as int) =~= Seq::<Seq<u64>>::empty(),
        merge_spec(tracks, fetched_map(Seq::<Track>::empty())) =~= tracks,
    decreases tracks.len(),
{
    lemma_merge_empty(tracks);
    if tracks.len() > 0 {
        assert(tracks.last() == tracks[tracks.len() - 1]);
        assert forall|i: int| 0 <= i < tracks.drop_last().len() implies (#[trigger] tracks.drop_last()[i]).media is Some by {
            assert(tracks.drop_last()[i] == tracks[i]);
        }
        lemma_completion_idempotent(tracks.drop_last());
    }
}

/// Merging against an empty map changes nothing.
pub proof fn lemma_merge_empty(tracks: Seq<Track>)
    ensures
        merge_spec(tracks, fetched_map(Seq::<Track>::empty())) =~= tracks,
    decreases tracks.len(),
{
    let m = fetched_map(Seq::<Track>::empty());
    assert(m =~= Map::<i64, Track>::empty());
    if tracks.len() > 0 {
        assert(!m.contains_key(tracks[0].id->Some_0));
        lemma_merge_empty(tracks.skip(1));
        assert(merge_spec(tracks, m) =~= seq![tracks[0]] + merge_spec(tracks.skip(1), m));
    }
}

/// The ids of the tracks that still lack a media descriptor.
pub fn incomplete_ids(tracks: &Vec<Track>) -> (r: Vec<u64>)
    requires
        forall|i: int|
            0 <= i < tracks@.len() && (#[trigger] tracks@[i]).media is None ==> tracks@[i].id is Some,
    ensures
        r@ =~= incomplete_ids_spec(tracks@),
{
    let mut r: Vec<u64> = Vec::new();
    let n = tracks.len();
    let mut i: usize = 0;
    while i < n
        invariant
            i <= n,
            n == tracks@.len(),
            forall|j: int|
                0 <= j < tracks@.len() && (#[trigger] tracks@[j]).media is None ==> tracks@[j].id is Some,
            r@ =~= incomplete_ids_spec(tracks@.take(i as int)),
        decreases n - i,
    {
        let ghost pre = tracks@.take(i as int);
        let ghost cur = tracks@.take(i + 1 as int);
        proof {
            assert(cur.drop_last() =~= pre);
            assert(cur.last() == tracks@[i as int]);
        }
        if tracks[i].media.is_none() {
            let id = match tracks[i].id {
                Some(id) => id,
                None => {
                    proof {
                        assert(false);
                    }
                    0
                },
            };
            r.push(id as u64);
            proof {
                assert(r@ =~= incomplete_ids_spec(pre) + seq![track_uid(tracks@[i as int])]);
            }
        } else {
            proof {
                assert(r@ =~= incomplete_ids_spec(pre) + Seq::<u64>::empty());
            }
        }
        i = i + 1;
    }
    proof {
        assert(tracks@.take(n as int) =~= tracks@);
    }
    r
}

/// The view of a sequence of chunks.
pub open spec fn chunks_view(cs: Seq<Vec<u64>>) -> Seq<Seq<u64>> {
    cs.map_values(|c: Vec<u64>| c@)
}

/// Split ids into lookup chunks of [`CHUNK_SIZE`].
pub fn chunk_ids(ids: &Vec<u64>) -> (r: Vec<Vec<u64>>)
    ensures
        chunks_view(r@) =~= chunks_of(ids@, CHUNK_SIZE as int),
{
    let mut r: Vec<Vec<u64>> = Vec::new();
    let n = ids.len();
    let mut i: usize = 0;
    proof {
        assert(ids@.skip(0) =~= ids@);
        assert(chunks_view(r@) =~= Seq::<Seq<u64>>::empty());
        assert(chunks_view(r@) + chunks_of(ids@, CHUNK_SIZE as int) =~= chunks_of(
            ids@,
            CHUNK_SIZE as int,
        ));
    }
    while i < n
        invariant
            i <= n,
            n == ids@.len(),
            chunks_view(r@) + chunks_of(ids@.skip(i as int), CHUNK_SIZE as int) =~= chunks_of(
                ids@,
                CHUNK_SIZE as int,
            ),
        decreases n - i,
    {
        let ghost rest = ids@.skip(i as int);
        let take = if n - i < CHUNK_SIZE {
            n - i
        } else {
            CHUNK_SIZE
        };
        let mut chunk: Vec<u64> = Vec::new();
        let mut j: usize = i;
        while j < i + take
            invariant
                i <= j <= i + take,
                i + take <= n,
                n == ids@.len(),
                chunk@ =~= ids@.subrange(i as int, j as int),
            decreases i + take - j,
        {
            chunk.push(ids[j]);
            proof {
                assert(chunk@ =~= ids@.subrange(i as int, j + 1 as int));
            }
            j = j + 1;
        }
        let ghost r_before = r@;
        r.push(chunk);
        proof {
            assert(r@.drop_last() =~= r_before);
            assert(chunks_view(r@) =~= chunks_view(r_before) + seq![chunk@]);
            if rest.len() <= CHUNK_SIZE {
                assert(chunk@ =~= rest);
                assert(chunks_of(rest, CHUNK_SIZE as int) == seq![rest]);
                assert(ids@.skip(i as int + take as int) =~= Seq::<u64>::empty());
                assert(chunks_of(ids@.skip(i as int + take as int), CHUNK_SIZE as int) =~= Seq::<
                    Seq<u64>,
                >::empty());
                assert(chunks_view(r@) + chunks_of(
                    ids@.skip(i as int + take as int),
                    CHUNK_SIZE as int,
                ) =~= chunks_view(r_before) + (seq![rest] + Seq::<Seq<u64>>::empty()));
                assert(seq![rest] + Seq::<Seq<u64>>::empty() =~= chunks_of(
                    rest,
                    CHUNK_SIZE as int,
                ));
            } else {
                assert(chunk@ =~= rest.take(CHUNK_SIZE as int));
                assert(chunks_of(rest, CHUNK_SIZE as int) == seq![rest.take(CHUNK_SIZE as int)]
                    + chunks_of(rest.skip(CHUNK_SIZE as int), CHUNK_SIZE as int));
                assert(rest.skip(CHUNK_SIZE as int) =~= ids@.skip(i as int + take as int));
                assert(chunks_view(r@) + chunks_of(
                    ids@.skip(i as int + take as int),
                    CHUNK_SIZE as int,
                ) =~= chunks_view(r_before) + chunks_of(rest, CHUNK_SIZE as int));
            }
        }
        i = i + take;
    }
    proof {
        assert(ids@.skip(n as int) =~= Seq::<u64>::empty());
        assert(chunks_of(ids@.skip(n as int), CHUNK_SIZE as int) =~= Seq::<Seq<u64>>::empty());
        assert(chunks_view(r@) =~= chunks_view(r@) + Seq::<Seq<u64>>::empty());
    }
    r
}

/// Merge fetched records into the playlist's tracks by id.
pub fn merge_tracks(tracks: Vec<Track>, fetched: Vec<Track>) -> (r: Vec<Track>)
    requires
        forall|i: int| 0 <= i < tracks@.len() ==> (#[trigger] tracks@[i]).id is Some,
        forall|i: int| 0 <= i < fetched@.len() ==> (#[trigger] fetched@[i]).id is Some,
    ensures
        r@ =~= merge_spec(tracks@, fetched_map(fetched@)),
{
    let ghost tracks0 = tracks@;
    let ghost m0 = fetched_map(fetched@);
    let mut out: Vec<Track> = Vec::new();
    let mut rest = tracks;
    let mut pool = fetched;
    proof {
        assert(out@ + merge_spec(rest@, fetched_map(pool@)) =~= merge_spec(tracks0, m0));
    }
    while rest.len() > 0
        invariant
            forall|i: int| 0 <= i < rest@.len() ==> (#[trigger] rest@[i]).id is Some,
            forall|i: int| 0 <= i < pool@.len() ==> (#[trigger] pool@[i]).id is Some,
            out@ + merge_spec(rest@, fetched_map(pool@)) =~= merge_spec(tracks0, m0),
        decreases rest@.len(),
    {
        let ghost rest_before = rest@;
        let ghost m = fetched_map(pool@);
        let t = rest.remove(0);
        proof {
            assert(rest@ =~= rest_before.skip(1));
            assert(t == rest_before[0]);
        }
        let k = match t.id {
            Some(id) => id,
            None => {
                proof {
                    assert(false);
                }
                0
            },
        };
        let (pool2, take) = extract_by_id(pool, k);
        proof {
            assert(fetched_map(pool2@) =~= m.remove(k));
            if m.contains_key(k) {
                assert(merge_spec(rest_before, m) == seq![m[k]] + merge_spec(
                    rest_before.skip(1),
                    m.remove(k),
                ));
            } else {
                assert(m.remove(k) =~= m);
                assert(merge_spec(rest_before, m) == seq![t] + merge_spec(
                    rest_before.skip(1),
                    m,
                ));
            }
        }
        pool = pool2;
        match take {
            Some(found) => {
                out.push(found);
            },
            None => {
                out.push(t);
            },
        }
    }
    proof {
        assert(merge_spec(rest@, fetched_map(pool@)) =~= Seq::<Track>::empty());
        assert(out@ =~= out@ + Seq::<Track>::empty());
    }
    out
}

/// Take every record with the given id out of the pool, handing back the
/// pool without them and the record the id-keyed map holds for the id.
fn extract_by_id(pool: Vec<Track>, k: i64) -> (r: (Vec<Track>, Option<Track>))
    requires
        forall|i: int| 0 <= i < pool@.len() ==> (#[trigger] pool@[i]).id is Some,
    ensures
        forall|i: int| 0 <= i < r.0@.len() ==> (#[trigger] r.0@[i]).id is Some,
        fetched_map(r.0@) =~= fetched_map(pool@).remove(k),
        r.1 is Some <==> fetched_map(pool@).contains_key(k),
        r.1 matches Some(x) ==> x == fetched_map(pool@)[k],
{
    let ghost pb = pool@;
    let mut source = pool;
    let mut kept: Vec<Track> = Vec::new();
    let mut take: Option<Track> = None;
    let ghost mut j: int = 0;
    proof {
        assert(pb.take(0) =~= Seq::<Track>::empty());
        assert(fetched_map(pb.take(0)) =~= Map::<i64, Track>::empty());
        assert(fetched_map(kept@) =~= fetched_map(pb.take(0)).remove(k));
    }
    while source.len() > 0
        invariant
            0 <= j <= pb.len(),
            source@ =~= pb.skip(j),
            forall|i: int| 0 <= i < pb.len() ==> (#[trigger] pb[i]).id is Some,
            forall|i: int| 0 <= i < kept@.len() ==> (#[trigger] kept@[i]).id is Some,
            fetched_map(kept@) =~= fetched_map(pb.take(j)).remove(k),
            take is Some <==> fetched_map(pb.take(j)).contains_key(k),
            take matches Some(x) ==> x == fetched_map(pb.take(j))[k],
        decreases source@.len(),
    {
        let f = source.remove(0);
        proof {
            assert(f == pb.skip(j)[0]);
            assert(pb.skip(j)[0] == pb[j]);
            assert(source@ =~= pb.skip(j).skip(1));
            assert(pb.skip(j).skip(1) =~= pb.skip(j + 1));
            assert(pb.take(j + 1).drop_last() =~= pb.take(j));
            assert(pb.take(j + 1).last() == pb[j]);
            assert(fetched_map(pb.take(j + 1)) == fetched_map(pb.take(j)).insert(
                pb[j].id->Some_0,
                pb[j],
            ));
        }
        let ghost mprev = fetched_map(pb.take(j));
        let fid = match f.id {
            Some(id) => id,
            None => {
                proof {
                    assert(false);
                }
                0
            },
        };
        if fid == k {
            take = Some(f);
            proof {
                assert(fetched_map(pb.take(j + 1)).remove(k) =~= mprev.remove(k));
                assert(fetched_map(kept@) =~= fetched_map(pb.take(j + 1)).remove(k));
                assert(fetched_map(pb.take(j + 1))[k] == f);
            }
        } else {
            let ghost kept_before = kept@;
            kept.push(f);
            proof {
                assert(kept@.drop_last() =~= kept_before);
                assert(kept@.last() == f);
                assert(fetched_map(kept@) == fetched_map(kept_before).insert(fid, f));
                assert(fetched_map(kept@) =~= fetched_map(pb.take(j + 1)).remove(k));
                assert(fetched_map(pb.take(j + 1)).contains_key(k) == mprev.contains_key(k));
                if mprev.contains_key(k) {
                    assert(fetched_map(pb.take(j + 1))[k] == mprev[k]);
                }
            }
        }
        proof {
            j = j + 1;
        }
    }
    proof {
        assert(pb.skip(j).len() == 0);
        assert(j == pb.len());
        assert(pb.take(j) =~= pb);
    }
    (kept, take)
}

/// What one batch-lookup step asks the caller to do.
#[derive(Debug)]
pub enum CompletionStep {
    /// The chunk's records arrived; look up the next pending chunk.
    Advance,
    /// The server failed transiently: sleep `time_secs`, then look the same
    /// chunk up again.
    Pause { time_secs: u64 },
    /// A fatal failure: completion ends with this error and the playlist
    /// keeps its original tracks.
    Fail { err: Error },
}

/// Drives the chunked backfill of one playlist's incomplete tracks.
///
/// The caller looks up each pending chunk in turn and feeds the outcome to
/// [`CompletionBatcher::step`]; once no chunk is pending, [`CompletionBatcher::finish`]
/// merges everything that was fetched back into the playlist.
pub struct CompletionBatcher {
    playlist: Playlist,
    chunks: Vec<Vec<u64>>,
    ci: usize,
    fetched: Vec<Track>,
    pause_secs: u64,
}

impl CompletionBatcher {
    /// The playlist being completed, exactly as handed in.
    pub closed spec fn playlist_model(&self) -> Playlist {
        self.playlist
    }

    /// The id chunks the backfill looks up.
    pub closed spec fn chunks_model(&self) -> Seq<Seq<u64>> {
        chunks_view(self.chunks@)
    }

    /// How many chunks have been answered.
    pub closed spec fn done_chunks(&self) -> int {
        self.ci as int
    }

    /// Every record the lookups returned so far.
    pub closed spec fn fetched_model(&self) -> Seq<Track> {
        self.fetched@
    }

    /// The configured pause after a transient server failure.
    pub closed spec fn pause_model(&self) -> u64 {
        self.pause_secs
    }

    /// The batcher's internal consistency.
    pub closed spec fn wf(&self) -> bool {
        &&& self.ci <= self.chunks@.len()
        &&& forall|i: int|
            0 <= i < self.fetched@.len() ==> (#[trigger] self.fetched@[i]).id is Some
        &&& (self.playlist.tracks matches Some(ts) ==> forall|i: int|
            0 <= i < ts@.len() ==> (#[trigger] ts@[i]).id is Some)
    }

    /// Begin completing `playlist`: gather the ids of its incomplete
    /// tracks and chunk them for lookup.  A playlist without a track list
    /// has nothing to complete.
    pub fn new(playlist: Playlist, pause_secs: u64) -> (r: Self)
        requires
            playlist.tracks matches Some(ts) ==> forall|i: int|
                0 <= i < ts@.len() ==> (#[trigger] ts@[i]).id is Some,
        ensures
            r.wf(),
            r.playlist_model() == playlist,
            r.chunks_model() =~~= (match playlist.tracks {
                Some(ts) => chunks_of(incomplete_ids_spec(ts@), CHUNK_SIZE as int),
                None => Seq::<Seq<u64>>::empty(),
            }),
            r.done_chunks() == 0,
            r.fetched_model() =~= Seq::<Track>::empty(),
            r.pause_model() == pause_secs,
    {
        let chunks = match &playlist.tracks {
            Some(ts) => {
                let ids = incomplete_ids(ts);
                chunk_ids(&ids)
            },
            None => Vec::new(),
        };
        CompletionBatcher { playlist, chunks, ci: 0, fetched: Vec::new(), pause_secs }
    }

    /// The chunk of ids the caller has to look up next, if any is left.
    pub fn pending_chunk(&self) -> (r: Option<&Vec<u64>>)
        requires
            self.wf(),
        ensures
            match r {
                Some(c) => self.done_chunks() < self.chunks_model().len() && c@
                    == self.chunks_model()[self.done_chunks()],
                None => self.done_chunks() == self.chunks_model().len(),
            },
    {
        if self.ci < self.chunks.len() {
            Some(&self.chunks[self.ci])
        } else {
            None
        }
    }

    /// Feed the outcome of the pending chunk's lookup into the backfill.
    ///
    /// A transient server failure pauses and leaves the batcher exactly as
    /// it was, so only the failing chunk is retried; any other failure ends
    /// the completion.
    pub fn step(&mut self, outcome: Result<Vec<Track>, Error>) -> (r: CompletionStep)
        requires
            old(self).wf(),
            old(self).done_chunks() < old(self).chunks_model().len(),
            outcome matches Ok(ts) ==> forall|i: int|
                0 <= i < ts@.len() ==> (#[trigger] ts@[i]).id is Some,
        ensures
            final(self).wf(),
            final(self).playlist_model() == old(self).playlist_model(),
            final(self).chunks_model() =~~= old(self).chunks_model(),
            final(self).pause_model() == old(self).pause_model(),
            match outcome {
                Ok(ts) => {
                    &&& final(self).fetched_model() =~= old(self).fetched_model() + ts@
                    &&& final(self).done_chunks() == old(self).done_chunks() + 1
                    &&& r is Advance
                },
                Err(e) => {
                    &&& final(self).fetched_model() =~= old(self).fetched_model()
                    &&& final(self).done_chunks() == old(self).done_chunks()
                    &&& if is_server_error(e) {
                        r == (CompletionStep::Pause { time_secs: old(self).pause_model() })
                    } else {
                        r == (CompletionStep::Fail { err: e })
                    }
                },
            },
    {
        match outcome {
            Ok(ts) => {
                let total = self.chunks.len();
                proof {
                    assert(old(self).chunks_model().len() == old(self).chunks@.len());
                    assert(self.ci < total);
                }
                let mut arriving = ts;
                self.fetched.append(&mut arriving);
                self.ci = self.ci + 1;
                CompletionStep::Advance
            },
            Err(e) => {
                if is_server_error_exec(&e) {
                    CompletionStep::Pause { time_secs: self.pause_secs }
                } else {
                    CompletionStep::Fail { err: e }
                }
            },
        }
    }

    /// Merge everything the lookups returned back into the playlist.
    ///
    /// Each track whose id was answered for is replaced by the fetched
    /// record; a track whose id never came back — a deleted track, say —
    /// keeps its original incomplete record.  Order and length are kept.
    pub fn finish(self) -> (r: Playlist)
        requires
            self.wf(),
            self.done_chunks() == self.chunks_model().len(),
        ensures
            r.id == self.playlist_model().id,
            r.uri == self.playlist_model().uri,
            r.title == self.playlist_model().title,
            r.permalink_url == self.playlist_model().permalink_url,
            match self.playlist_model().tracks {
                Some(ts) => r.tracks matches Some(out) && out@ =~= merge_spec(
                    ts@,
                    fetched_map(self.fetched_model()),
                ),
                None => r.tracks is None,
            },
    {
        let CompletionBatcher { playlist, chunks: _, ci: _, fetched, pause_secs: _ } = self;
        match playlist.tracks {
            Some(ts) => {
                let merged = merge_tracks(ts, fetched);
                Playlist {
                    id: playlist.id,
                    uri: playlist.uri,
                    title: playlist.title,
                    permalink_url: playlist.permalink_url,
                    tracks: Some(merged),
                }
            },
            None => Playlist {
                id: playlist.id,
                uri: playlist.uri,
                title: playlist.title,
                permalink_url: playlist.permalink_url,
                tracks: None,
            },
        }
    }

    /// Hand the playlist back untouched, abandoning the completion — what
    /// a fatal lookup failure comes to.
    pub fn abandon(self) -> (r: Playlist)
        ensures
            r == self.playlist_model(),
    {
        self.playlist
    }
}

} // verus!
