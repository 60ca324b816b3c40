//! Driving the crawl: one URL per step, fetch, extract, store, enqueue.
//!
//! The driver owns the fetch client and a [`DriverLogic`]: a pluggable
//! storage sink, extraction stage and frontier. One crawl step starts with
//! [`Driver::drive`]; because the network is outside this crate, a step
//! that needs a request hands a [`DriveStep::Fetch`] state out, and the
//! embedding program answers each request through [`Driver::drive_event`]
//! until the step finishes. Errors of one step are handed to the caller and
//! never touch more state than their contracts say: a failed fetch
//! enqueues nothing and marks nothing visited.

use vstd::prelude::*;

use crate::err::{ErrV, HTTPError};
use crate::extract::Document;
use crate::http::{
    GetState, GetStep, GetStepV, HTTPS, HttpEvent, get_start_transition, get_step_transition,
};
use crate::url::{Url, UrlV, url_views};

verus! {

/// Stores the records extracted from one page.
///
/// An external collaborator: nothing is promised of it, and a failure is
/// reported to the driver's caller without rolling the step back.
pub trait Storage<T> {
    fn store(&mut self, records: Vec<T>) -> (r: Result<(), HTTPError>);
}

/// Extracts records and discovers further URLs from a fetched document.
///
/// An external collaborator: which records and URLs come out of a page is
/// the plugged-in policy's business, not the core's.
pub trait Extractor<T> {
    /// The records of one fetched page.
    fn extract(&mut self, _url: &Url, _doc: &Document) -> (r: Vec<T>) {
        Vec::new()
    }

    /// The pages to fetch next, based on one fetched page.
    fn next_sites(&mut self, url: &Url, doc: &Document) -> (r: Vec<Url>);
}

/// An alternate exploration shape: seeds once, then discoveries per page.
pub trait Explorer {
    /// Seed URLs, handed out once and then drained.
    fn idle(&mut self) -> (r: Vec<Url>);

    /// URLs discovered in one fetched document.
    fn next(&mut self, doc: &Document) -> (r: Vec<Url>);
}

/// The frontier: URLs known but not yet fetched, and the set already
/// fetched.
///
/// `pending()` and `seen()` are the contract's view of an implementation.
/// The order of `pending()` is the implementation's own; the driver assumes
/// nothing beyond one URL per `next()` call. A failing call must leave the
/// frontier as it was.
pub trait Queue {
    /// The URLs waiting to be fetched, in the order the implementation
    /// keeps them.
    spec fn pending(&self) -> Seq<UrlV>;

    /// The URLs already marked visited.
    spec fn seen(&self) -> Set<UrlV>;

    /// Offers a batch of discovered URLs. The pending URLs already there
    /// stay, in their order — only `next` removes; what is appended must
    /// come from `urls`; the visited set is not touched.
    fn add(&mut self, urls: &Vec<Url>) -> (r: Result<(), HTTPError>)
        ensures
            final(self).seen() == old(self).seen(),
            r is Ok ==> exists|tail: Seq<UrlV>|
                final(self).pending() == old(self).pending() + tail && (forall|u: UrlV|
                    #[trigger] tail.contains(u) ==> url_views(urls@).contains(u)),
            r is Err ==> final(self).pending() == old(self).pending(),
    ;

    /// Removes and returns one URL to fetch next, or signals emptiness.
    fn next(&mut self) -> (r: Result<Option<Url>, HTTPError>)
        ensures
            final(self).seen() == old(self).seen(),
            r matches Ok(None) ==> old(self).pending().len() == 0 && final(self).pending() == old(self).pending(),
            r matches Ok(Some(u)) ==> exists|i: int|
                0 <= i < old(self).pending().len() && old(self).pending()[i] == u@ && final(self).pending() == old(self).pending().remove(i),
            r is Err ==> final(self).pending() == old(self).pending(),
    ;

    /// Records that `url` has been fetched. Idempotent; the pending order
    /// is not touched.
    fn visited(&mut self, url: &Url) -> (r: Result<(), HTTPError>)
        ensures
            final(self).pending() == old(self).pending(),
            r is Ok ==> final(self).seen() == old(self).seen().insert(url@),
            r is Err ==> final(self).seen() == old(self).seen(),
    ;
}

/// The driven implementation: where records go, what is extracted, and
/// which URLs wait.
pub struct DriverLogic<T, S: Storage<T>, E: Extractor<T>, Q: Queue> {
    pub store: S,
    pub extract: E,
    pub queue: Q,
    pub records: core::marker::PhantomData<T>,
}

/// The crawl-driving engine: a fetch client plus a [`DriverLogic`].
pub struct Driver<T, S: Storage<T>, E: Extractor<T>, Q: Queue> {
    pub https: HTTPS,
    pub logic: DriverLogic<T, S, E, Q>,
}

/// One crawl step in flight: the URL being processed and the state of its
/// politeness-checked fetch.
#[derive(Debug)]
pub struct DriveState {
    pub url: Url,
    pub get: GetState,
}

impl DriveState {
    /// The URL the embedding program must request next.
    pub fn request_url(&self) -> (u: &Url)
        ensures
            u@ == crate::http::spec_request_url(self.get@),
    {
        self.get.request_url()
    }
}

/// What one call into the driver means for the caller.
#[derive(Debug)]
pub enum DriveStep {
    /// The frontier was empty: no work done this tick, and no error.
    NoWork,
    /// A network request is needed: perform a GET of
    /// [`DriveState::request_url`] and hand the outcome to
    /// [`Driver::drive_event`].
    Fetch(DriveState),
    /// A page was processed: its discoveries were offered to the frontier
    /// and the URL was marked visited. `discovered` is the offered batch;
    /// `stored` reports the storage sink's outcome, which never blocks
    /// frontier progress.
    Done { discovered: Vec<Url>, stored: Result<(), HTTPError> },
}

impl<T, S: Storage<T>, E: Extractor<T>, Q: Queue> Driver<T, S, E, Q> {
    /// The fetch client's robots policy cache.
    pub closed spec fn cache(&self) -> Seq<(Seq<u8>, Seq<u8>)> {
        self.https.cache()
    }

    /// The frontier's pending URLs.
    pub closed spec fn q_pending(&self) -> Seq<UrlV> {
        self.logic.queue.pending()
    }

    /// The frontier's visited URLs.
    pub closed spec fn q_seen(&self) -> Set<UrlV> {
        self.logic.queue.seen()
    }

    /// A driver over `logic`, with the given fetch client or a fresh one.
    pub fn new(logic: DriverLogic<T, S, E, Q>, https: Option<HTTPS>) -> (d: Driver<T, S, E, Q>)
        ensures
            d.logic == logic,
            https matches Some(h) ==> d.https == h,
            https is None ==> d.cache() == Seq::<(Seq<u8>, Seq<u8>)>::empty()
                && d.https.spec_agent() == "scrapeprice (lbo@spheniscida.de)"@,
    {
        let https = match https {
            Some(h) => h,
            None => HTTPS::new(),
        };
        Driver { https, logic }
    }

    /// Starts one crawl step: pulls the next URL and begins its
    /// politeness-checked fetch.
    ///
    /// `NoWork` means the frontier was empty — not an error. `Fetch` hands
    /// out the URL that was pulled and the first request to make; a
    /// politeness denial out of the cached policy is returned as an error
    /// with no request made for the URL. The policy cache is not changed.
    pub fn drive(&mut self) -> (r: Result<DriveStep, HTTPError>)
        ensures
            final(self).cache() == old(self).cache(),
            final(self).q_seen() == old(self).q_seen(),
            r matches Ok(DriveStep::NoWork) ==> old(self).q_pending().len() == 0 && final(self).q_pending() == old(self).q_pending(),
            r matches Ok(DriveStep::Fetch(st)) ==> (exists|i: int|
                0 <= i < old(self).q_pending().len() && old(self).q_pending()[i] == st.url@
                    && final(self).q_pending() == old(self).q_pending().remove(i))
                && get_start_transition(old(self).cache(), st.url@) == GetStepV::Request(st.get@),
            r is Ok ==> !(r matches Ok(DriveStep::Done { .. })),
            r matches Err(e) ==> final(self).q_pending() == old(self).q_pending() || (exists|
                i: int,
            |
                0 <= i < old(self).q_pending().len() && final(self).q_pending() == old(self).q_pending().remove(i) && e == HTTPError::PolitenessDenied
                    && get_start_transition(old(self).cache(), #[trigger] old(self).q_pending()[i])
                    == GetStepV::Finished(Err(ErrV::PolitenessDenied))),
    {
        let next = self.logic.queue.next()?;
        match next {
            None => Ok(DriveStep::NoWork),
            Some(url) => {
                proof {
                    let i = choose|i: int|
                        0 <= i < old(self).q_pending().len() && old(self).q_pending()[i] == url@
                            && self.q_pending() == old(self).q_pending().remove(i);
                    assert(0 <= i < old(self).q_pending().len() && old(self).q_pending()[i]
                        == url@ && self.q_pending() == old(self).q_pending().remove(i));
                }
                match self.https.get(&url) {
                    GetStep::Request(get) => Ok(DriveStep::Fetch(DriveState { url, get })),
                    GetStep::Finished(Err(e)) => {
                        proof {
                            assert(e@ == ErrV::PolitenessDenied);
                            assert(e == HTTPError::PolitenessDenied) by {
                                match e {
                                    HTTPError::PolitenessDenied => {},
                                    _ => {
                                        assert(false);
                                    },
                                }
                            }
                        }
                        Err(e)
                    },
                    GetStep::Finished(Ok(_)) => {
                        proof {
                            assert(false);
                        }
                        vstd::pervasive::unreached()
                    },
                }
            },
        }
    }

    /// Continues one crawl step with the outcome of the requested GET.
    ///
    /// While the fetch is in flight, the frontier is untouched. A fetch or
    /// decoding failure ends the step with that error and the frontier
    /// still untouched: nothing is enqueued, nothing marked visited. A
    /// fetched page is parsed, extracted, its records handed to storage,
    /// its discoveries offered to the frontier, and the URL marked
    /// visited; `Done` says the frontier was brought forward — pending
    /// extended by nothing but discoveries, the URL now seen — and carries
    /// the storage outcome, a failure of which is reported without
    /// blocking that progress. Only a frontier failure ends such a step as
    /// an error, and even then pending URLs are never dropped and the
    /// visited set is unchanged.
    pub fn drive_event(&mut self, st: DriveState, ev: HttpEvent) -> (r: Result<
        DriveStep,
        HTTPError,
    >)
        ensures
            final(self).cache() == get_step_transition(old(self).cache(), st.get@, ev@).1,
            ({
                let out = get_step_transition(old(self).cache(), st.get@, ev@).0;
                match out {
                    GetStepV::Request(g2) => (r matches Ok(DriveStep::Fetch(st2)) && st2.url
                        == st.url && st2.get@ == g2) && final(self).q_pending() == old(self).q_pending() && final(self).q_seen() == old(self).q_seen(),
                    GetStepV::Finished(res) => match res {
                        Err(e) => (r matches Err(e2) && e2@ == e) && final(self).q_pending()
                            == old(self).q_pending() && final(self).q_seen() == old(self).q_seen(),
                        Ok(resp) => {
                            &&& !vstd::utf8::valid_utf8(resp.body) ==> (r matches Err(e2) && e2@
                                matches ErrV::Encoding(_)) && final(self).q_pending() == old(self).q_pending() && final(self).q_seen() == old(self).q_seen()
                            &&& vstd::utf8::valid_utf8(resp.body) ==> {
                                &&& r matches Ok(DriveStep::Done { discovered, .. }) ==> final(self).q_seen() == old(self).q_seen().insert(st.url@) && (exists|
                                    tail: Seq<UrlV>,
                                |
                                    final(self).q_pending() == old(self).q_pending() + tail && (
                                    forall|u: UrlV|
                                        #[trigger] tail.contains(u) ==> url_views(
                                            discovered@,
                                        ).contains(u)))
                                &&& r is Err ==> final(self).q_seen() == old(self).q_seen() && (
                                exists|tail: Seq<UrlV>|
                                    final(self).q_pending() == #[trigger] (old(self).q_pending()
                                        + tail))
                                &&& r is Ok ==> r matches Ok(DriveStep::Done { .. })
                            }
                        },
                    },
                }
            }),
            r matches Ok(DriveStep::Fetch(_)) || final(self).q_seen() == old(self).q_seen()
                || final(self).q_seen() == old(self).q_seen().insert(st.url@),
            r is Ok ==> !(r matches Ok(DriveStep::NoWork)),
    {
        let DriveState { url, get } = st;
        match self.https.get_step(get, ev) {
            GetStep::Request(get2) => Ok(DriveStep::Fetch(DriveState { url, get: get2 })),
            GetStep::Finished(Err(e)) => Err(e),
            GetStep::Finished(Ok(resp)) => {
                let doc = crate::extract::parse_response(resp)?;
                let records = self.logic.extract.extract(&url, &doc);
                let stored = self.logic.store.store(records);
                let next_urls = self.logic.extract.next_sites(&url, &doc);
                let ghost pending_mid = self.q_pending();
                match self.logic.queue.add(&next_urls) {
                    Ok(()) => {},
                    Err(e) => {
                        proof {
                            assert(self.q_pending() =~= old(self).q_pending()
                                + Seq::<UrlV>::empty());
                        }
                        return Err(e);
                    },
                }
                proof {
                    let tail = choose|tail: Seq<UrlV>|
                        self.q_pending() == pending_mid + tail && (forall|u: UrlV|
                            #[trigger] tail.contains(u) ==> url_views(next_urls@).contains(u));
                    assert(self.q_pending() == old(self).q_pending() + tail && (forall|u: UrlV|
                        #[trigger] tail.contains(u) ==> url_views(next_urls@).contains(u)));
                }
                match self.logic.queue.visited(&url) {
                    Ok(()) => {},
                    Err(e) => {
                        return Err(e);
                    },
                }
                Ok(DriveStep::Done { discovered: next_urls, stored })
            },
        }
    }
}

} // verus!
