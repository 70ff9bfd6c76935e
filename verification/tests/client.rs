use zester::api::me::Me;
use zester::paginate::PageStep;
use zester::{is_500, retry_loop, Error, LoopControl, Zester, API_BASE, PAUSE_SECS};

fn me_record(id: i64) -> Me {
    Me {
        id: Some(id),
        username: None,
        permalink_url: None,
        playlist_count: Some(1),
        playlist_likes_count: Some(2),
        private_playlists_count: Some(3),
    }
}

#[test]
fn likes() {
    let _zester = Zester::new("".into(), "".into());
}

#[test]
fn new_zester_has_no_user_record() {
    let z = Zester::new("token".into(), "cid".into());
    assert!(z.me.is_none());
}

#[test]
fn me_request_points_at_the_me_route() {
    let z = Zester::new("token".into(), "cid".into());
    let r = z.me();
    assert_eq!(r.url, format!("{}me", API_BASE));
    assert_eq!(r.query, vec![("client_id".to_string(), "cid".to_string())]);
    assert_eq!(r.oauth_token, Some("token".to_string()));
}

#[test]
fn api_req_appends_path_and_client_id() {
    let z = Zester::new("t".into(), "c".into());
    let r = z.api_req("users/7/track_likes", vec![("limit".to_string(), "500".to_string())]);
    assert_eq!(r.url, format!("{}users/7/track_likes", API_BASE));
    assert_eq!(
        r.query,
        vec![
            ("limit".to_string(), "500".to_string()),
            ("client_id".to_string(), "c".to_string()),
        ]
    );
    assert_eq!(r.oauth_token, Some("t".to_string()));
}

#[test]
fn api_req_full_can_omit_the_client_id() {
    let z = Zester::new("t".into(), "c".into());
    let r = z.api_req_full("https://example.com/x", Vec::new(), false);
    assert_eq!(r.url, "https://example.com/x");
    assert!(r.query.is_empty());
    assert_eq!(r.oauth_token, Some("t".to_string()));
}

#[test]
fn likes_request_names_the_user() {
    let mut z = Zester::new("token".into(), "cid".into());
    z.me = Some(me_record(42));
    let pag = z.likes();
    let r = pag.pending_request();
    assert_eq!(r.url, format!("{}users/42/track_likes", API_BASE));
    assert_eq!(
        r.query,
        vec![
            ("limit".to_string(), "500".to_string()),
            ("offset".to_string(), "0".to_string()),
            ("linked_partitioning".to_string(), "1".to_string()),
            ("client_id".to_string(), "cid".to_string()),
        ]
    );
    assert_eq!(r.oauth_token, Some("token".to_string()));
}

#[test]
fn likes_request_renders_a_negative_user_id() {
    let mut z = Zester::new("token".into(), "cid".into());
    z.me = Some(me_record(-5));
    let pag = z.likes();
    assert_eq!(pag.pending_request().url, format!("{}users/-5/track_likes", API_BASE));
}

#[test]
fn playlists_request_names_the_listing() {
    let mut z = Zester::new("token".into(), "cid".into());
    z.me = Some(me_record(42));
    let pag = z.playlists();
    let r = pag.pending_request();
    assert_eq!(r.url, format!("{}users/42/playlists/liked_and_owned", API_BASE));
    assert_eq!(r.query[0], ("limit".to_string(), "50".to_string()));
}

#[test]
fn tracks_info_joins_the_ids() {
    let z = Zester::new("t".into(), "c".into());
    let r = z.tracks_info(&vec![10, 20, 30]);
    assert_eq!(r.url, format!("{}tracks", API_BASE));
    assert_eq!(
        r.query,
        vec![
            ("ids".to_string(), "10,20,30".to_string()),
            ("client_id".to_string(), "c".to_string()),
        ]
    );
}

#[test]
fn total_playlist_count_sums_the_three_counters() {
    let me = me_record(1);
    assert_eq!(me.total_playlist_count(), 6);
}

#[test]
fn pause_is_configurable_and_defaults_to_two_seconds() {
    assert_eq!(PAUSE_SECS, 2);
    let mut z = Zester::new("t".into(), "c".into());
    z.set_pause_secs(7);
    z.me = Some(me_record(1));
    let mut pag = z.likes();
    let step = pag.step(Err(Error::HttpError(500)));
    assert!(matches!(step, PageStep::Pause { time_secs: 7 }));
}

#[test]
fn is_500_covers_exactly_the_server_error_range() {
    assert!(!is_500(499));
    assert!(is_500(500));
    assert!(is_500(503));
    assert!(is_500(599));
    assert!(!is_500(600));
    assert!(!is_500(404));
}

#[test]
fn set_me_stores_the_user_record() {
    let mut z = Zester::new("t".into(), "c".into());
    z.set_me(me_record(9));
    assert_eq!(z.me.as_ref().unwrap().id, Some(9));
    let pag = z.likes();
    assert_eq!(pag.pending_request().url, format!("{}users/9/track_likes", API_BASE));
}

#[test]
fn retry_loop_visits_every_item_in_order() {
    let items = vec![1, 2, 3];
    let (log, completed, _trace) = retry_loop(
        &items,
        Vec::new(),
        |mut log: Vec<i32>, x: i32| {
            log.push(x);
            (log, LoopControl::Next)
        },
        5,
    );
    assert!(completed);
    assert_eq!(log, vec![1, 2, 3]);
}

#[test]
fn retry_loop_repeats_an_item_on_retry() {
    let items = vec![1, 2, 3];
    let body = |st: (Vec<i32>, bool), x: i32| {
        let (mut log, mut retried) = st;
        log.push(x);
        if x == 2 && !retried {
            retried = true;
            ((log, retried), LoopControl::Retry)
        } else {
            ((log, retried), LoopControl::Next)
        }
    };
    let ((log, _), completed, _trace) = retry_loop(&items, (Vec::new(), false), body, 5);
    assert!(completed);
    assert_eq!(log, vec![1, 2, 2, 3]);
}

#[test]
fn retry_loop_gives_up_after_the_ceiling() {
    let items = vec![7];
    let (attempts, completed, _trace) = retry_loop(
        &items,
        0u32,
        |n: u32, _x: i32| (n + 1, LoopControl::Retry),
        3,
    );
    assert!(!completed);
    assert_eq!(attempts, 4);
}
