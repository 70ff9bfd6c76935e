use zester::api::likes::{Media, Track};
use zester::api::playlists::Playlist;
use zester::complete::{chunk_ids, incomplete_ids, merge_tracks, CompletionStep};
use zester::{Error, Zester};

fn track(id: i64, media: Option<Media>, title: Option<&str>) -> Track {
    Track {
        comment_count: None,
        full_duration: None,
        downloadable: None,
        created_at: None,
        description: None,
        media,
        title: title.map(|s| s.to_string()),
        publisher_metadata: None,
        duration: None,
        has_downloads_left: None,
        artwork_url: None,
        public: None,
        streamable: None,
        tag_list: None,
        download_url: None,
        genre: None,
        id: Some(id),
        reposts_count: None,
        state: None,
        label_name: None,
        last_modified: None,
        commentable: None,
        policy: None,
        visuals: None,
        kind: None,
        purchase_url: None,
        sharing: None,
        uri: None,
        download_count: None,
        likes_count: None,
        urn: None,
        license: None,
        purchase_title: None,
        display_date: None,
        embeddable_by: None,
        release_date: None,
        user_id: None,
        monetization_model: None,
        waveform_url: None,
        permalink: None,
        permalink_url: None,
        user: None,
        playback_count: None,
    }
}

fn complete_track(id: i64) -> Track {
    track(id, Some(Media { transcodings: None }), None)
}

fn incomplete_track(id: i64) -> Track {
    track(id, None, None)
}

fn playlist(tracks: Option<Vec<Track>>) -> Playlist {
    Playlist { id: Some(1), uri: None, title: None, permalink_url: None, tracks }
}

#[test]
fn twenty_three_ids_chunk_into_ten_ten_three() {
    let ids: Vec<u64> = (1..=23).collect();
    let chunks = chunk_ids(&ids);
    let sizes: Vec<usize> = chunks.iter().map(|c| c.len()).collect();
    assert_eq!(sizes, vec![10, 10, 3]);
    let flat: Vec<u64> = chunks.into_iter().flatten().collect();
    assert_eq!(flat, ids);
}

#[test]
fn chunking_edge_cases() {
    assert!(chunk_ids(&Vec::new()).is_empty());
    assert_eq!(chunk_ids(&vec![5]).len(), 1);
    let exactly_ten: Vec<u64> = (1..=10).collect();
    let chunks = chunk_ids(&exactly_ten);
    assert_eq!(chunks.len(), 1);
    assert_eq!(chunks[0], exactly_ten);
}

#[test]
fn incomplete_ids_picks_tracks_without_media() {
    let tracks = vec![complete_track(1), incomplete_track(2), incomplete_track(3)];
    assert_eq!(incomplete_ids(&tracks), vec![2, 3]);
}

#[test]
fn merge_replaces_by_id_and_keeps_unanswered_records() {
    let tracks = vec![incomplete_track(1), incomplete_track(2), incomplete_track(3)];
    let fetched = vec![
        track(3, Some(Media { transcodings: None }), Some("three")),
        track(1, Some(Media { transcodings: None }), Some("one")),
    ];
    let merged = merge_tracks(tracks, fetched);
    assert_eq!(merged.len(), 3);
    assert_eq!(merged[0].title.as_deref(), Some("one"));
    assert!(merged[0].media.is_some());
    assert!(merged[1].media.is_none(), "an id the lookup never answered for keeps its record");
    assert_eq!(merged[2].title.as_deref(), Some("three"));
}

#[test]
fn merge_lets_a_later_record_supersede_an_earlier_one() {
    let tracks = vec![incomplete_track(7)];
    let fetched = vec![
        track(7, None, Some("early")),
        track(7, None, Some("late")),
    ];
    let merged = merge_tracks(tracks, fetched);
    assert_eq!(merged[0].title.as_deref(), Some("late"));
}

#[test]
fn completion_walks_the_incomplete_tracks_in_chunks() {
    let z = Zester::new("t".into(), "c".into());
    let mut tracks = Vec::new();
    for id in 1..=23 {
        tracks.push(incomplete_track(id));
    }
    let mut batcher = playlist(Some(tracks)).complete_tracks_info(&z);
    let first: Vec<u64> = batcher.pending_chunk().unwrap().clone();
    assert_eq!(first, (1..=10).collect::<Vec<u64>>());
    assert!(matches!(batcher.step(Ok(Vec::new())), CompletionStep::Advance));
    let second: Vec<u64> = batcher.pending_chunk().unwrap().clone();
    assert_eq!(second, (11..=20).collect::<Vec<u64>>());
    assert!(matches!(batcher.step(Ok(Vec::new())), CompletionStep::Advance));
    let third: Vec<u64> = batcher.pending_chunk().unwrap().clone();
    assert_eq!(third, vec![21, 22, 23]);
    assert!(matches!(batcher.step(Ok(Vec::new())), CompletionStep::Advance));
    assert!(batcher.pending_chunk().is_none());
}

#[test]
fn a_failed_chunk_is_retried_alone() {
    let z = Zester::new("t".into(), "c".into());
    let mut tracks = Vec::new();
    for id in 1..=23 {
        tracks.push(incomplete_track(id));
    }
    let mut batcher = playlist(Some(tracks)).complete_tracks_info(&z);
    assert!(matches!(batcher.step(Ok(Vec::new())), CompletionStep::Advance));
    let before: Vec<u64> = batcher.pending_chunk().unwrap().clone();
    assert!(matches!(
        batcher.step(Err(Error::HttpError(500))),
        CompletionStep::Pause { time_secs: 2 }
    ));
    let after: Vec<u64> = batcher.pending_chunk().unwrap().clone();
    assert_eq!(before, after, "only the failing chunk is retried");
    assert_eq!(after, (11..=20).collect::<Vec<u64>>());
}

#[test]
fn a_fatal_chunk_failure_abandons_completion() {
    let z = Zester::new("t".into(), "c".into());
    let mut batcher =
        playlist(Some(vec![incomplete_track(1)])).complete_tracks_info(&z);
    assert!(matches!(
        batcher.step(Err(Error::HttpError(404))),
        CompletionStep::Fail { err: Error::HttpError(404) }
    ));
    let given_back = batcher.abandon();
    assert!(given_back.tracks.unwrap()[0].media.is_none());
}

#[test]
fn completion_of_a_complete_playlist_does_no_lookups_and_changes_nothing() {
    let z = Zester::new("t".into(), "c".into());
    let p = playlist(Some(vec![complete_track(1), complete_track(2)]));
    let mut batcher = p.complete_tracks_info(&z);
    assert!(batcher.pending_chunk().is_none(), "zero lookups");
    let once = batcher.finish();
    let ids: Vec<i64> = once.tracks.as_ref().unwrap().iter().map(|t| t.id.unwrap()).collect();
    assert_eq!(ids, vec![1, 2]);

    let mut again = once.complete_tracks_info(&z);
    assert!(again.pending_chunk().is_none(), "still zero lookups the second time");
    let twice = again.finish();
    let ids2: Vec<i64> = twice.tracks.as_ref().unwrap().iter().map(|t| t.id.unwrap()).collect();
    assert_eq!(ids2, vec![1, 2]);
    assert!(twice.tracks.unwrap().iter().all(|t| t.media.is_some()));
}

#[test]
fn completion_of_a_trackless_playlist_is_a_no_op() {
    let z = Zester::new("t".into(), "c".into());
    let mut batcher = playlist(None).complete_tracks_info(&z);
    assert!(batcher.pending_chunk().is_none());
    let p = batcher.finish();
    assert!(p.tracks.is_none());
}
