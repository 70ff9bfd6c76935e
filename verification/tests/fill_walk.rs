use zester::api::playlists::{Playlist, PlaylistCollection, PlaylistMeta};
use zester::api::Playlists;
use zester::events::{playlists_meta_event, PlaylistsZestingEvent};
use zester::fill::meta_done_event;
use zester::paginate::PageStep;
use zester::{Error, LoopControl, Zester};

fn meta(id: i64, uri: &str) -> PlaylistMeta {
    PlaylistMeta { id: Some(id), uri: Some(uri.to_string()), title: None, permalink_url: None }
}

fn collection(id: i64, uri: &str) -> PlaylistCollection {
    PlaylistCollection { created_at: None, playlist: Some(meta(id, uri)) }
}

fn playlist(id: i64) -> Playlist {
    Playlist { id: Some(id), uri: None, title: None, permalink_url: None, tracks: Some(Vec::new()) }
}

#[test]
fn the_full_record_request_rewrites_the_listing_host() {
    let z = Zester::new("tok".into(), "cid".into());
    let fill = z.playlists_fill(vec![collection(9, "https://api.soundcloud.com/playlists/9")]);
    let r = fill.info_request();
    assert_eq!(r.url, "https://api-v2.soundcloud.com/playlists/9");
    assert_eq!(
        r.query,
        vec![
            ("representation".to_string(), "full".to_string()),
            ("client_id".to_string(), "cid".to_string()),
        ]
    );
    assert_eq!(r.oauth_token, Some("tok".to_string()));
}

#[test]
fn a_uri_without_the_pattern_is_left_alone() {
    let z = Zester::new("tok".into(), "cid".into());
    let fill = z.playlists_fill(vec![collection(9, "https://other.example/playlists/9")]);
    assert_eq!(fill.info_request().url, "https://other.example/playlists/9");
}

#[test]
fn a_server_error_retries_the_same_entry() {
    let z = Zester::new("tok".into(), "cid".into());
    let fill = z.playlists_fill(vec![collection(1, "https://api.soundcloud.com/p/1")]);
    let (event, ctl) = fill.attempt_failure(Error::HttpError(503));
    assert!(matches!(
        event,
        PlaylistsZestingEvent::PausedAfterServerError { time_secs: 2 }
    ));
    assert!(matches!(ctl, LoopControl::Retry));
}

#[test]
fn a_fatal_failure_is_reported_and_the_walk_moves_on() {
    let z = Zester::new("tok".into(), "cid".into());
    let mut fill = z.playlists_fill(vec![
        collection(1, "https://api.soundcloud.com/p/1"),
        collection(2, "https://api.soundcloud.com/p/2"),
    ]);
    match fill.start_event() {
        PlaylistsZestingEvent::StartPlaylistInfoDownload { playlist_meta } => {
            assert_eq!(playlist_meta.id, Some(1));
        },
        _ => panic!("expected a start event"),
    }
    let (event, ctl) = fill.attempt_failure(Error::JsonDecodeError);
    match event {
        PlaylistsZestingEvent::PlaylistInfoDownloadError { playlist_meta, err } => {
            assert_eq!(playlist_meta.id, Some(1));
            assert!(matches!(err, Error::JsonDecodeError));
        },
        _ => panic!("expected a download-error event"),
    }
    assert!(matches!(ctl, LoopControl::Next));
    fill.skip_current();
    assert!(!fill.done());
    fill.push_current(playlist(2));
    assert!(fill.done());
    let out = Playlists::assemble(fill);
    assert_eq!(out.playlists.len(), 1, "the failed entry contributes no playlist");
    assert_eq!(out.playlists[0].id, Some(2));
}

#[test]
fn a_completion_failure_still_keeps_the_playlist() {
    let z = Zester::new("tok".into(), "cid".into());
    let mut fill = z.playlists_fill(vec![collection(5, "https://api.soundcloud.com/p/5")]);
    match fill.completion_error_event(Error::HttpError(401)) {
        PlaylistsZestingEvent::PlaylistInfoCompletionError { playlist_meta, err } => {
            assert_eq!(playlist_meta.id, Some(5));
            assert!(matches!(err, Error::HttpError(401)));
        },
        _ => panic!("expected a completion-error event"),
    }
    match fill.finish_event() {
        PlaylistsZestingEvent::FinishPlaylistInfoDownload { playlist_meta } => {
            assert_eq!(playlist_meta.id, Some(5));
        },
        _ => panic!("expected a finish event"),
    }
    fill.push_current(playlist(5));
    let out = Playlists::assemble(fill);
    assert_eq!(out.playlists.len(), 1);
}

#[test]
fn meta_page_steps_map_to_playlist_events() {
    assert!(matches!(
        playlists_meta_event(&PageStep::Next { count: 4 }),
        Some(PlaylistsZestingEvent::MorePlaylistMetaInfoDownloaded { count: 4 })
    ));
    assert!(matches!(
        playlists_meta_event(&PageStep::Pause { time_secs: 2 }),
        Some(PlaylistsZestingEvent::PausedAfterServerError { time_secs: 2 })
    ));
    assert!(playlists_meta_event(&PageStep::Abort { err: Error::IoError }).is_none());
    assert!(matches!(
        meta_done_event(),
        PlaylistsZestingEvent::FinishPlaylistMetaInfoDownloading
    ));
}
