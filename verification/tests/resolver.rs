use zester::api::likes::{Format, Media, Protocol, Quality, Track, Transcoding};
use zester::json::media_url_from_info;
use zester::{Error, Zester};

fn track_with_media(media: Option<Media>) -> Track {
    Track {
        comment_count: None,
        full_duration: None,
        downloadable: None,
        created_at: None,
        description: None,
        media,
        title: None,
        publisher_metadata: None,
        duration: None,
        has_downloads_left: None,
        artwork_url: None,
        public: None,
        streamable: None,
        tag_list: None,
        download_url: None,
        genre: None,
        id: Some(1),
        reposts_count: None,
        state: None,
        label_name: None,
        last_modified: None,
        commentable: None,
        policy: None,
        visuals: None,
        kind: None,
        purchase_url: None,
        sharing: None,
        uri: None,
        download_count: None,
        likes_count: None,
        urn: None,
        license: None,
        purchase_title: None,
        display_date: None,
        embeddable_by: None,
        release_date: None,
        user_id: None,
        monetization_model: None,
        waveform_url: None,
        permalink: None,
        permalink_url: None,
        user: None,
        playback_count: None,
    }
}

fn variant(url: &str, quality: Quality, protocol: Protocol) -> Transcoding {
    Transcoding {
        url: url.to_string(),
        preset: "mp3".to_string(),
        duration: 1000,
        snipped: false,
        format: Format { protocol, mime_type: "audio/mpeg".to_string() },
        quality,
    }
}

fn data_not_present(r: Result<zester::audio::TrackFetch, Error>) -> String {
    match r {
        Err(Error::DataNotPresent(d)) => d,
        Err(other) => panic!("expected a data-not-present failure, got {:?}", other),
        Ok(_) => panic!("expected a failure"),
    }
}

#[test]
fn selection_picks_the_first_hq_progressive_variant() {
    let z = Zester::new("tok".into(), "cid".into());
    let t = track_with_media(Some(Media {
        transcodings: Some(vec![
            variant("a", Quality::Sq, Protocol::Progressive),
            variant("b", Quality::Hq, Protocol::Hls),
            variant("c", Quality::Hq, Protocol::Progressive),
        ]),
    }));
    let fetch = t.download(&z).unwrap();
    let r = fetch.pending_request();
    assert_eq!(r.url, "c", "the third entry is the desired variant");
    assert!(r.query.is_empty());
    assert_eq!(r.oauth_token, Some("tok".to_string()));
}

#[test]
fn selection_fails_without_a_desired_variant() {
    let z = Zester::new("tok".into(), "cid".into());
    let t = track_with_media(Some(Media {
        transcodings: Some(vec![variant("a", Quality::Sq, Protocol::Progressive)]),
    }));
    assert_eq!(data_not_present(t.download(&z)), "desired transcoding");
}

#[test]
fn selection_fails_without_a_transcodings_list() {
    let z = Zester::new("tok".into(), "cid".into());
    let t = track_with_media(Some(Media { transcodings: None }));
    assert_eq!(data_not_present(t.download(&z)), "transcodings information");
}

#[test]
fn selection_fails_without_a_media_descriptor() {
    let z = Zester::new("tok".into(), "cid".into());
    let t = track_with_media(None);
    assert_eq!(data_not_present(t.download(&z)), "media information");
}

#[test]
fn the_info_document_yields_the_signed_url() {
    let url = media_url_from_info("{\"url\": \"https://cf-media.example/x?sig=1\"}").unwrap();
    assert_eq!(url, "https://cf-media.example/x?sig=1");
}

#[test]
fn a_document_without_the_url_field_is_data_not_present() {
    match media_url_from_info("{\"other\": 3}") {
        Err(Error::DataNotPresent(d)) => assert_eq!(d, "media file url in info json"),
        other => panic!("expected data-not-present, got {:?}", other.map(|_| ())),
    }
    match media_url_from_info("{\"url\": 17}") {
        Err(Error::DataNotPresent(_)) => {},
        other => panic!("a non-string url is unusable, got {:?}", other.map(|_| ())),
    }
}

#[test]
fn a_body_that_is_not_json_is_a_decode_failure() {
    assert!(matches!(media_url_from_info("not json"), Err(Error::JsonDecodeError)));
}

#[test]
fn the_two_hops_hand_the_audio_through() {
    let z = Zester::new("tok".into(), "cid".into());
    let t = track_with_media(Some(Media {
        transcodings: Some(vec![variant(
            "https://api-v2.soundcloud.com/media/1/stream",
            Quality::Hq,
            Protocol::Progressive,
        )]),
    }));
    let mut fetch = t.download(&z).unwrap();
    assert!(fetch.awaiting_info());
    let err = fetch.step_info(Ok("{\"url\": \"https://signed.example/a\"}".to_string()));
    assert!(err.is_none());
    assert!(fetch.awaiting_media());
    let media_req = fetch.pending_request();
    assert_eq!(media_req.url, "https://signed.example/a");
    assert_eq!(media_req.oauth_token, None, "the signed fetch is unauthenticated");
    let err = fetch.step_media(Ok(vec![1, 2, 3]));
    assert!(err.is_none());
    assert_eq!(fetch.take_data(), vec![1, 2, 3]);
}

#[test]
fn an_info_hop_failure_ends_the_attempt_with_its_error() {
    let z = Zester::new("tok".into(), "cid".into());
    let t = track_with_media(Some(Media {
        transcodings: Some(vec![variant("u", Quality::Hq, Protocol::Progressive)]),
    }));
    let mut fetch = t.download(&z).unwrap();
    let err = fetch.step_info(Err(Error::HttpError(503)));
    assert!(matches!(err, Some(Error::HttpError(503))));

    let mut fetch2 = t.download(&z).unwrap();
    let err2 = fetch2.step_info(Ok("no json at all".to_string()));
    assert!(matches!(err2, Some(Error::JsonDecodeError)));
}
