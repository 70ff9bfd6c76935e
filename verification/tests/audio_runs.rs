use zester::api::likes::{Collection, Media, Track};
use zester::api::playlists::Playlist;
use zester::api::Likes;
use zester::audio::wrap_track_event;
use zester::events::{PlaylistsAudioZestingEvent, TracksAudioZestingEvent};
use zester::{Error, LoopControl, Zester};

fn track(id: i64) -> Track {
    Track {
        comment_count: None,
        full_duration: None,
        downloadable: None,
        created_at: None,
        description: None,
        media: Some(Media { transcodings: None }),
        title: None,
        publisher_metadata: None,
        duration: None,
        has_downloads_left: None,
        artwork_url: None,
        public: None,
        streamable: None,
        tag_list: None,
        download_url: None,
        genre: None,
        id: Some(id),
        reposts_count: None,
        state: None,
        label_name: None,
        last_modified: None,
        commentable: None,
        policy: None,
        visuals: None,
        kind: None,
        purchase_url: None,
        sharing: None,
        uri: None,
        download_count: None,
        likes_count: None,
        urn: None,
        license: None,
        purchase_title: None,
        display_date: None,
        embeddable_by: None,
        release_date: None,
        user_id: None,
        monetization_model: None,
        waveform_url: None,
        permalink: None,
        permalink_url: None,
        user: None,
        playback_count: None,
    }
}

#[test]
fn an_error_on_one_track_does_not_stop_the_batch() {
    let z = Zester::new("t".into(), "c".into());
    let tracks: Vec<Track> = (1..=10).map(track).collect();
    let refs: Vec<&Track> = tracks.iter().collect();
    let mut run = z.tracks_audio(refs);
    assert!(matches!(
        run.num_event(),
        TracksAudioZestingEvent::NumTracksToDownload { num: 10 }
    ));
    let mut started = Vec::new();
    let mut finished = Vec::new();
    let mut failed = Vec::new();
    while !run.done() {
        match run.start_event() {
            TracksAudioZestingEvent::StartTrackDownload { track_info } => {
                started.push(track_info.id.unwrap());
            },
            _ => panic!("expected a start event"),
        }
        let fifth = started.len() == 5;
        let outcome = if fifth {
            Err(Error::HttpError(404))
        } else {
            Ok(vec![started.len() as u8])
        };
        let (event, ctl) = run.attempt(outcome);
        match event {
            TracksAudioZestingEvent::FinishTrackDownload { track_info, track_data } => {
                finished.push(track_info.id.unwrap());
                assert_eq!(track_data, vec![started.len() as u8]);
            },
            TracksAudioZestingEvent::TrackDownloadError { track_info, err } => {
                failed.push(track_info.id.unwrap());
                assert!(matches!(err, Error::HttpError(404)));
            },
            _ => panic!("expected a finish or error event"),
        }
        run.step(ctl);
    }
    assert_eq!(started, (1..=10).collect::<Vec<i64>>(), "every track was attempted");
    assert_eq!(failed, vec![5]);
    assert_eq!(finished, vec![1, 2, 3, 4, 6, 7, 8, 9, 10]);
}

#[test]
fn a_server_error_retries_the_same_track() {
    let z = Zester::new("t".into(), "c".into());
    let tracks = vec![track(7), track(8)];
    let refs: Vec<&Track> = tracks.iter().collect();
    let mut run = z.tracks_audio(refs);
    assert_eq!(run.current().id, Some(7));
    let (event, ctl) = run.attempt(Err(Error::HttpError(503)));
    assert!(matches!(
        event,
        TracksAudioZestingEvent::PausedAfterServerError { time_secs: 2 }
    ));
    assert!(matches!(ctl, LoopControl::Retry));
    run.step(ctl);
    assert_eq!(run.current().id, Some(7), "the cursor stays on the failing track");
    let (_, ctl) = run.attempt(Ok(Vec::new()));
    run.step(ctl);
    assert_eq!(run.current().id, Some(8));
}

#[test]
fn likes_audio_takes_the_most_recent_likes() {
    let z = Zester::new("t".into(), "c".into());
    let likes = Likes {
        collections: vec![
            Collection { created_at: None, track: track(1) },
            Collection { created_at: None, track: track(2) },
            Collection { created_at: None, track: track(3) },
        ],
    };
    let run = z.likes_audio(&likes, 2);
    assert!(matches!(
        run.num_event(),
        TracksAudioZestingEvent::NumTracksToDownload { num: 2 }
    ));
    assert_eq!(run.current().id, Some(1));

    let all = z.likes_audio(&likes, 99);
    assert!(matches!(
        all.num_event(),
        TracksAudioZestingEvent::NumTracksToDownload { num: 3 }
    ));
}

#[test]
fn playlists_audio_counts_playlists_and_tracks() {
    let z = Zester::new("t".into(), "c".into());
    let p1 = Playlist {
        id: Some(1),
        uri: None,
        title: None,
        permalink_url: None,
        tracks: Some(vec![track(1), track(2)]),
    };
    let p2 = Playlist {
        id: Some(2),
        uri: None,
        title: None,
        permalink_url: None,
        tracks: Some(vec![track(3), track(4), track(5)]),
    };
    let mut run = z.playlists_audio(vec![&p1, &p2]);
    assert!(matches!(
        run.num_event(),
        PlaylistsAudioZestingEvent::NumItemsToDownload { playlists_num: 2, tracks_num: 5 }
    ));
    assert!(!run.done());
    assert!(matches!(
        run.start_event(),
        PlaylistsAudioZestingEvent::StartPlaylistDownload { playlist_info } if playlist_info.id == Some(1)
    ));
    let refs = run.current_track_refs();
    assert_eq!(refs.len(), 2);
    assert_eq!(refs[0].id, Some(1));
    assert!(matches!(
        run.finish_event(),
        PlaylistsAudioZestingEvent::FinishPlaylistDownload { playlist_info } if playlist_info.id == Some(1)
    ));
    run.advance();
    assert_eq!(run.current_track_refs().len(), 3);
    run.advance();
    assert!(run.done());
}

#[test]
fn track_events_are_wrapped_with_their_playlist() {
    let p = Playlist {
        id: Some(9),
        uri: None,
        title: None,
        permalink_url: None,
        tracks: Some(Vec::new()),
    };
    let inner = TracksAudioZestingEvent::NumTracksToDownload { num: 0 };
    match wrap_track_event(inner, &p) {
        PlaylistsAudioZestingEvent::TrackEvent(
            TracksAudioZestingEvent::NumTracksToDownload { num: 0 },
            playlist,
        ) => assert_eq!(playlist.id, Some(9)),
        _ => panic!("expected a wrapped track event"),
    }
}
