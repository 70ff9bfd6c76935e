//! The records an operation hands back, and the record-level helpers the
//! operations are built from.

use vstd::prelude::*;

pub mod likes;
pub mod me;
pub mod playlists;

use crate::Zester;
use crate::api::likes::{Collection, LikesRaw};
use crate::api::me::Me;
use crate::api::playlists::{Playlist, PlaylistCollection, PlaylistsRaw};
use crate::complete::CompletionBatcher;
use crate::paginate::{Page, Paginator};

verus! {

/// All of a user's liked tracks, as collected by the likes operation.
#[derive(Debug)]
pub struct Likes {
    pub collections: Vec<Collection>,
}

/// All of a user's playlists, as collected by the playlists operation.
#[derive(Debug)]
pub struct Playlists {
    pub playlists: Vec<Playlist>,
}

impl Likes {
    /// The collected likes of a finished pagination.
    pub fn assemble(pag: Paginator<Collection>) -> (r: Likes)
        requires
            pag@.phase is Finished,
        ensures
            r.collections@ =~= pag@.collected,
    {
        Likes { collections: pag.into_items() }
    }
}

impl Me {
    /// The sum of the user's three playlist counters: how many playlists the
    /// playlists operation is expected to walk.
    pub fn total_playlist_count(&self) -> (r: i64)
        requires
            self.playlist_count is Some,
            self.playlist_likes_count is Some,
            self.private_playlists_count is Some,
            i64::MIN <= self.playlist_count->Some_0 + self.playlist_likes_count->Some_0
                <= i64::MAX,
            i64::MIN <= self.playlist_count->Some_0 + self.playlist_likes_count->Some_0
                + self.private_playlists_count->Some_0 <= i64::MAX,
        ensures
            r == self.playlist_count->Some_0 + self.playlist_likes_count->Some_0
                + self.private_playlists_count->Some_0,
    {
        let a = match self.playlist_count {
            Some(v) => v,
            None => {
                proof {
                    assert(false);
                }
                0
            },
        };
        let b = match self.playlist_likes_count {
            Some(v) => v,
            None => {
                proof {
                    assert(false);
                }
                0
            },
        };
        let c = match self.private_playlists_count {
            Some(v) => v,
            None => {
                proof {
                    assert(false);
                }
                0
            },
        };
        a + b + c
    }
}

impl LikesRaw {
    /// The page this response describes: its item envelopes and its
    /// continuation reference.
    pub fn into_page(self) -> (r: Page<Collection>)
        requires
            self.collection is Some,
        ensures
            r@.items == self.collection->Some_0@,
            r@.next == (match self.next_href {
                Some(u) => Some(u@),
                None => None::<Seq<char>>,
            }),
    {
        let items = match self.collection {
            Some(c) => c,
            None => {
                proof {
                    assert(false);
                }
                Vec::new()
            },
        };
        Page { items, next_href: self.next_href }
    }
}

impl PlaylistsRaw {
    /// The page this response describes: its item envelopes and its
    /// continuation reference.
    pub fn into_page(self) -> (r: Page<PlaylistCollection>)
        requires
            self.collection is Some,
        ensures
            r@.items == self.collection->Some_0@,
            r@.next == (match self.next_href {
                Some(u) => Some(u@),
                None => None::<Seq<char>>,
            }),
    {
        let items = match self.collection {
            Some(c) => c,
            None => {
                proof {
                    assert(false);
                }
                Vec::new()
            },
        };
        Page { items, next_href: self.next_href }
    }
}

impl Playlist {
    /// Make sure all info is present for all tracks in this playlist.
    ///
    /// The track data a playlist listing returns is often incomplete —
    /// notably lacking the media descriptors a download needs.  The batcher
    /// this hands back fixes that through chunked batch lookups; the caller
    /// performs them and collects the completed playlist from
    /// [`CompletionBatcher::finish`].
    pub fn complete_tracks_info(self, zester: &Zester) -> (r: CompletionBatcher)
        requires
            self.tracks matches Some(ts) ==> forall|i: int|
                0 <= i < ts@.len() ==> (#[trigger] ts@[i]).id is Some,
        ensures
            r.wf(),
            r.playlist_model() == self,
            r.chunks_model() =~~= (match self.tracks {
                Some(ts) => crate::complete::chunks_of(
                    crate::complete::incomplete_ids_spec(ts@),
                    crate::complete::CHUNK_SIZE as int,
                ),
                None => Seq::<Seq<u64>>::empty(),
            }),
            r.done_chunks() == 0,
            r.fetched_model() =~= Seq::<crate::api::likes::Track>::empty(),
            r.pause_model() == zester.pause_model(),
    {
        CompletionBatcher::new(self, zester.pause_secs)
    }
}

} // verus!
