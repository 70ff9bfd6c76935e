use zester::events::{likes_event, LikesZestingEvent};
use zester::paginate::{Page, PageStep, Paginator};
use zester::{ClientCfg, Error, Request};

fn cfg() -> ClientCfg {
    ClientCfg { client_id: "cid".to_string(), oauth_token: "tok".to_string(), pause_secs: 2 }
}

fn initial() -> Request {
    Request { url: "page0".to_string(), query: Vec::new(), oauth_token: None }
}

fn page(items: Vec<i32>, next: Option<&str>) -> Page<i32> {
    Page { items, next_href: next.map(|s| s.to_string()) }
}

/// Drive a paginator over the given outcomes, recording each step.
fn drive(outcomes: Vec<Result<Page<i32>, Error>>) -> (Paginator<i32>, Vec<PageStep>) {
    let mut pag: Paginator<i32> = Paginator::new(cfg(), initial());
    let mut steps = Vec::new();
    for o in outcomes {
        steps.push(pag.step(o));
    }
    (pag, steps)
}

#[test]
fn pagination_concatenates_all_pages_in_order() {
    let (pag, steps) = drive(vec![
        Ok(page(vec![1, 2], Some("page1"))),
        Ok(page(vec![3], Some("page2"))),
        Ok(page(vec![4, 5, 6], None)),
    ]);
    assert!(!pag.active());
    assert_eq!(pag.into_items(), vec![1, 2, 3, 4, 5, 6]);
    assert_eq!(steps.len(), 3);
    assert!(matches!(steps[0], PageStep::Next { count: 2 }));
    assert!(matches!(steps[1], PageStep::Next { count: 1 }));
    assert!(matches!(steps[2], PageStep::Done { count: 3 }));
}

#[test]
fn pagination_emits_one_progress_event_per_page_with_its_count() {
    let (_, steps) = drive(vec![
        Ok(page(vec![1, 2], Some("page1"))),
        Ok(page(vec![3], None)),
    ]);
    let counts: Vec<i64> = steps
        .iter()
        .map(|s| match likes_event(s) {
            Some(LikesZestingEvent::MoreLikesInfoDownloaded { count }) => count,
            other => panic!("unexpected event {:?}", other),
        })
        .collect();
    assert_eq!(counts, vec![2, 1]);
}

#[test]
fn pagination_follows_the_exact_continuation_url() {
    let mut pag: Paginator<i32> = Paginator::new(cfg(), initial());
    pag.step(Ok(page(vec![1], Some("https://host/next?cursor=abc"))));
    let r = pag.pending_request();
    assert_eq!(r.url, "https://host/next?cursor=abc");
    assert_eq!(r.query, vec![("client_id".to_string(), "cid".to_string())]);
    assert_eq!(r.oauth_token, Some("tok".to_string()));
}

#[test]
fn a_server_error_pauses_and_keeps_the_cursor() {
    let with_failure = vec![
        Ok(page(vec![1, 2], Some("page1"))),
        Err(Error::HttpError(503)),
        Ok(page(vec![3], None)),
    ];
    let without_failure = vec![
        Ok(page(vec![1, 2], Some("page1"))),
        Ok(page(vec![3], None)),
    ];
    let (pag1, steps1) = drive(with_failure);
    let (pag2, _) = drive(without_failure);
    assert!(matches!(steps1[1], PageStep::Pause { time_secs: 2 }));
    assert!(matches!(steps1[2], PageStep::Done { count: 1 }));
    assert_eq!(pag1.into_items(), pag2.into_items());
}

#[test]
fn the_retried_request_is_the_same_request() {
    let mut pag: Paginator<i32> = Paginator::new(cfg(), initial());
    pag.step(Ok(page(vec![1], Some("page1"))));
    let before = pag.pending_request().url.clone();
    pag.step(Err(Error::HttpError(500)));
    assert_eq!(pag.pending_request().url, before);
    assert!(pag.active());
}

#[test]
fn exactly_one_pause_event_precedes_the_retried_page() {
    let (_, steps) = drive(vec![
        Ok(page(vec![1], Some("page1"))),
        Err(Error::HttpError(503)),
        Ok(page(vec![2], None)),
    ]);
    let events: Vec<LikesZestingEvent> = steps.iter().filter_map(likes_event).collect();
    assert_eq!(events.len(), 3);
    assert!(matches!(events[0], LikesZestingEvent::MoreLikesInfoDownloaded { count: 1 }));
    assert!(matches!(events[1], LikesZestingEvent::PausedAfterServerError { time_secs: 2 }));
    assert!(matches!(events[2], LikesZestingEvent::MoreLikesInfoDownloaded { count: 1 }));
}

#[test]
fn a_not_found_aborts_the_whole_pagination() {
    let (pag, steps) = drive(vec![
        Ok(page(vec![1, 2], Some("page1"))),
        Err(Error::HttpError(404)),
    ]);
    assert!(matches!(&steps[1], PageStep::Abort { err: Error::HttpError(404) }));
    assert!(!pag.active());
    assert!(likes_event(&steps[1]).is_none());
}

#[test]
fn an_unauthorized_aborts_too() {
    let (_, steps) = drive(vec![Err(Error::HttpError(401))]);
    assert!(matches!(&steps[0], PageStep::Abort { err: Error::HttpError(401) }));
}

#[test]
fn an_io_failure_aborts() {
    let (_, steps) = drive(vec![Err(Error::IoError)]);
    assert!(matches!(&steps[0], PageStep::Abort { err: Error::IoError }));
}
