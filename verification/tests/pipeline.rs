//! The fetch state machine, the frontier and the drive loop.

use core::marker::PhantomData;

use scrapeprice::driver::{Driver, DriverLogic, DriveStep, Explorer, Queue};
use scrapeprice::err::HTTPError;
use scrapeprice::http::{
    GetStep, HTTPS, HttpEvent, RedirectState, RedirectStep, redirect_step,
};
use scrapeprice::implem::{AudiophilExplorer, AudiophilItemPriceExtractor, AudiophilQueue};
use scrapeprice::url::Url;
use scrapeprice::util::DebuggingStorage;

fn url(host: &str, path: &str) -> Url {
    Url::new(
        b"https".to_vec(),
        host.as_bytes().to_vec(),
        path.as_bytes().to_vec(),
        Vec::new(),
    )
}

fn redirect_to(path: &str) -> HttpEvent {
    HttpEvent::Response { status: 302, location: Some(path.as_bytes().to_vec()), body: Vec::new() }
}

fn ok_page(body: &str) -> HttpEvent {
    HttpEvent::Response { status: 200, location: None, body: body.as_bytes().to_vec() }
}

const ALLOW_ALL: &str = "User-agent: *\nDisallow:\n";

#[test]
fn redirects_within_bound_return_final_body() {
    let mut st = RedirectState::start(&url("host.example", "/start"));
    for hop in 0..10 {
        match redirect_step(st, redirect_to("/hop")) {
            RedirectStep::Request(next) => st = next,
            other => panic!("hop {} should continue, got {:?}", hop, other),
        }
    }
    match redirect_step(st, ok_page("payload")) {
        RedirectStep::Done(Ok(resp)) => {
            assert_eq!(resp.status, 200);
            assert_eq!(resp.body, b"payload".to_vec());
        },
        _ => panic!("the chain should end in the final body"),
    }
}

#[test]
fn eleventh_redirect_exhausts() {
    let mut st = RedirectState::start(&url("host.example", "/start"));
    for _ in 0..10 {
        match redirect_step(st, redirect_to("/hop")) {
            RedirectStep::Request(next) => st = next,
            _ => panic!("within the bound the chain continues"),
        }
    }
    match redirect_step(st, redirect_to("/hop")) {
        RedirectStep::Done(Err(HTTPError::RedirectExhausted)) => {},
        _ => panic!("the eleventh redirect must exhaust the bound"),
    }
}

#[test]
fn redirect_without_location_is_malformed() {
    let st = RedirectState::start(&url("host.example", "/start"));
    let ev = HttpEvent::Response { status: 302, location: None, body: Vec::new() };
    match redirect_step(st, ev) {
        RedirectStep::Done(Err(HTTPError::MalformedResponse)) => {},
        _ => panic!("a redirect without a location is malformed"),
    }
}

#[test]
fn transport_failure_aborts_at_once() {
    let st = RedirectState::start(&url("host.example", "/start"));
    match redirect_step(st, HttpEvent::Transport("connection reset".to_string())) {
        RedirectStep::Done(Err(HTTPError::TransportError(cause))) => {
            assert_eq!(cause, "connection reset");
        },
        _ => panic!("a transport failure ends the fetch"),
    }
}

#[test]
fn redirect_keeps_authority_and_splits_query() {
    let st = RedirectState::start(&url("host.example", "/start"));
    match redirect_step(st, redirect_to("/next?page=2")) {
        RedirectStep::Request(st2) => {
            assert_eq!(st2.current.host, b"host.example".to_vec());
            assert_eq!(st2.current.scheme, b"https".to_vec());
            assert_eq!(st2.current.path, b"/next".to_vec());
            assert_eq!(st2.current.query, b"page=2".to_vec());
        },
        _ => panic!("a first redirect is followed"),
    }
}

#[test]
fn politeness_denial_makes_no_target_request() {
    let mut https = HTTPS::new();
    let target = url("host.example", "/private/page");
    // Nothing cached yet: the robots policy is fetched first.
    let st = match https.get(&target) {
        GetStep::Request(st) => {
            assert_eq!(st.request_url().path, b"/robots.txt".to_vec());
            st
        },
        _ => panic!("the first get must fetch the robots policy"),
    };
    let robots = HttpEvent::Response {
        status: 200,
        location: None,
        body: b"User-agent: *\nDisallow: /private/\n".to_vec(),
    };
    // The policy denies: the get finishes without any request for the page.
    match https.get_step(st, robots) {
        GetStep::Finished(Err(HTTPError::PolitenessDenied)) => {},
        _ => panic!("the policy must deny the path before any target request"),
    }
    // The policy is cached: a later get for the same host is denied at once.
    match https.get(&target) {
        GetStep::Finished(Err(HTTPError::PolitenessDenied)) => {},
        _ => panic!("the cached policy must deny at once"),
    }
    // A permitted path on the same host goes straight to the target.
    let open = url("host.example", "/public/page");
    match https.get(&open) {
        GetStep::Request(st) => assert_eq!(st.request_url().path, b"/public/page".to_vec()),
        _ => panic!("a permitted path is requested directly"),
    }
}

fn fresh_driver() -> Driver<
    scrapeprice::util::ScrapedPrice,
    DebuggingStorage,
    AudiophilItemPriceExtractor,
    AudiophilQueue,
> {
    let logic = DriverLogic {
        store: DebuggingStorage {},
        extract: AudiophilItemPriceExtractor {},
        queue: AudiophilQueue::new(),
        records: PhantomData,
    };
    Driver::new(logic, None)
}

/// Drives one step to completion, answering the robots request (if one
/// comes) with an allow-all policy and the page request with `page`.
fn complete_step(
    d: &mut Driver<
        scrapeprice::util::ScrapedPrice,
        DebuggingStorage,
        AudiophilItemPriceExtractor,
        AudiophilQueue,
    >,
    page: HttpEvent,
) -> Result<DriveStep, HTTPError> {
    let mut step = d.drive()?;
    loop {
        match step {
            DriveStep::Fetch(st) => {
                let ev = if st.request_url().path == b"/robots.txt".to_vec() {
                    ok_page(ALLOW_ALL)
                } else {
                    page.clone()
                };
                step = d.drive_event(st, ev)?;
            },
            done => return Ok(done),
        }
    }
}

#[test]
fn a_404_surfaces_and_enqueues_nothing() {
    let mut d = fresh_driver();
    let not_found = HttpEvent::Response { status: 404, location: None, body: Vec::new() };
    match complete_step(&mut d, not_found) {
        Err(HTTPError::StatusError(404)) => {},
        other => panic!("a 404 must surface as a status error, got {:?}", other),
    }
    // The failed URL was dropped without being re-added, and the remaining
    // seeds still drain in order: five more pages, then no work.
    for _ in 0..5 {
        match complete_step(&mut d, ok_page("<html></html>")) {
            Ok(DriveStep::Done { discovered, stored }) => {
                assert!(discovered.is_empty());
                assert!(stored.is_ok());
            },
            other => panic!("a fetched page completes the step, got {:?}", other),
        }
    }
    match d.drive() {
        Ok(DriveStep::NoWork) => {},
        _ => panic!("after the seeds are drained there is no work"),
    }
}

#[test]
fn driving_marks_seeds_visited_until_empty() {
    let mut d = fresh_driver();
    // Six seeds, an extractor that discovers nothing: six completed steps.
    for _ in 0..6 {
        match complete_step(&mut d, ok_page("<html></html>")) {
            Ok(DriveStep::Done { discovered, stored }) => {
                assert!(discovered.is_empty());
                assert!(stored.is_ok());
            },
            _ => panic!("each seed page must complete"),
        }
    }
    match d.drive() {
        Ok(DriveStep::NoWork) => {},
        _ => panic!("the frontier must be drained"),
    }
    // Every seed is now visited: offering one again is a no-op.
    let seed = url("audiophil-foto.de", "/de/shop/kameras/sony/");
    d.logic.queue.add(&vec![seed]).unwrap();
    match d.logic.queue.next() {
        Ok(None) => {},
        _ => panic!("a visited URL must not be yielded again"),
    }
}

#[test]
fn visited_url_not_yielded_after_add() {
    let mut q = AudiophilQueue::new();
    // Drain the seeds and mark them all visited.
    let mut drained: Vec<Url> = Vec::new();
    while let Ok(Some(u)) = q.next() {
        drained.push(u);
        if drained.len() > 6 {
            panic!("more URLs than were seeded");
        }
    }
    assert_eq!(drained.len(), 6);
    for u in &drained {
        q.visited(u).unwrap();
    }
    // Offering a visited URL must not make next() yield it again.
    q.add(&vec![drained[0].duplicate()]).unwrap();
    assert!(matches!(q.next(), Ok(None)));
    // A fresh URL still goes through.
    let fresh = url("audiophil-foto.de", "/de/shop/zubehoer/");
    q.add(&vec![fresh]).unwrap();
    match q.next() {
        Ok(Some(u)) => assert_eq!(u.path, b"/de/shop/zubehoer/".to_vec()),
        _ => panic!("an unseen URL must be yielded"),
    }
}

#[test]
fn explorer_hands_seeds_out_once() {
    let mut ex = AudiophilExplorer::new();
    let first = ex.idle();
    assert_eq!(first.len(), 6);
    assert_eq!(first[0].host, b"audiophil-foto.de".to_vec());
    assert!(ex.idle().is_empty());
}

#[test]
fn client_announces_fixed_agent() {
    let https = HTTPS::new();
    assert_eq!(https.agent_str(), "scrapeprice (lbo@spheniscida.de)");
}
