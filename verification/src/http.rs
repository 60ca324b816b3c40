//! The fetch client: redirect following and per-host politeness, as a state
//! machine.
//!
//! The network is outside this crate, so a logical GET is driven in steps:
//! [`HTTPS::get`] starts one and returns either a finished outcome or a
//! [`GetStep::Request`] naming the URL to fetch. The embedding program
//! performs that request and hands the outcome back as an [`HttpEvent`] to
//! [`HTTPS::get_step`], which answers with the next request or the final
//! outcome. Every transition is specified exactly by the spec functions
//! below, so the redirect bound, the politeness conjunction and the error
//! classification are all proved rather than promised.

use vstd::prelude::*;
use vstd::string::StringSliceAdditionalSpecFns;
use vstd::slice::slice_to_vec;

use crate::err::{ErrV, HTTPError};
use crate::robots::{robots_ok, spec_robots_ok};
use crate::url::{Url, UrlV, bytes_eq, clone_bytes, find_byte, lemma_find_byte, subrange_bytes};

verus! {

/// The most redirect hops one logical GET follows.
pub const MAX_REDIRECTS: u32 = 10;

/// A successful terminal fetch: the status and the raw body.
#[derive(Debug)]
pub struct GetResponse {
    pub status: u16,
    pub body: Vec<u8>,
}

#[verifier::ext_equal]
pub ghost struct RespV {
    pub status: u16,
    pub body: Seq<u8>,
}

impl View for GetResponse {
    type V = RespV;

    open spec fn view(&self) -> RespV {
        RespV { status: self.status, body: self.body@ }
    }
}

/// What the network answered to one GET request.
#[derive(Debug, Clone)]
pub enum HttpEvent {
    /// A response: its status, its `Location` header if any, and its body.
    Response { status: u16, location: Option<Vec<u8>>, body: Vec<u8> },
    /// A transport-level failure (DNS, TLS, connection), with its cause.
    Transport(String),
}

pub ghost enum EventV {
    Response { status: u16, location: Option<Seq<u8>>, body: Seq<u8> },
    Transport(Seq<char>),
}

impl View for HttpEvent {
    type V = EventV;

    open spec fn view(&self) -> EventV {
        match self {
            HttpEvent::Response { status, location, body } => EventV::Response {
                status: *status,
                location: match location {
                    Some(l) => Some(l@),
                    None => None,
                },
                body: body@,
            },
            HttpEvent::Transport(s) => EventV::Transport(s@),
        }
    }
}

/// A redirect-following fetch in flight: the URL to request next and how
/// many hops led here.
#[derive(Debug)]
pub struct RedirectState {
    pub current: Url,
    pub hops: u32,
}

#[verifier::ext_equal]
pub ghost struct RedirectV {
    pub current: UrlV,
    pub hops: u32,
}

impl View for RedirectState {
    type V = RedirectV;

    open spec fn view(&self) -> RedirectV {
        RedirectV { current: self.current@, hops: self.hops }
    }
}

impl RedirectState {
    /// Begins a redirect-following fetch of `url`, with no politeness check:
    /// this is the primitive that the robots policy fetch itself uses.
    pub fn start(url: &Url) -> (st: RedirectState)
        ensures
            st@ == (RedirectV { current: url@, hops: 0 }),
    {
        RedirectState { current: url.duplicate(), hops: 0 }
    }
}

/// What a redirect-following fetch does after one network answer.
#[derive(Debug)]
pub enum RedirectStep {
    /// Request the state's current URL next.
    Request(RedirectState),
    /// The fetch is over, well or badly.
    Done(Result<GetResponse, HTTPError>),
}

pub ghost enum RedirectStepV {
    Request(RedirectV),
    Done(Result<RespV, ErrV>),
}

impl View for RedirectStep {
    type V = RedirectStepV;

    open spec fn view(&self) -> RedirectStepV {
        match self {
            RedirectStep::Request(st) => RedirectStepV::Request(st@),
            RedirectStep::Done(Ok(resp)) => RedirectStepV::Done(Ok(resp@)),
            RedirectStep::Done(Err(e)) => RedirectStepV::Done(Err(e@)),
        }
    }
}

/// The statuses the client follows to a new location.
pub open spec fn is_redirect_status(status: u16) -> bool {
    status == 301 || status == 302 || status == 303 || status == 307 || status == 308
}

/// A `Location` value split into path and query at the first `?`.
pub open spec fn spec_split_query(loc: Seq<u8>) -> (Seq<u8>, Seq<u8>) {
    match crate::url::spec_find_byte(loc, 63) {
        Some(i) => (loc.take(i), loc.skip(i + 1)),
        None => (loc, Seq::empty()),
    }
}

/// The URL a redirect leads to: the `Location` value interpreted as path
/// and query on the authority already being fetched.
pub open spec fn redirect_target(cur: UrlV, loc: Seq<u8>) -> UrlV {
    UrlV {
        scheme: cur.scheme,
        host: cur.host,
        path: spec_split_query(loc).0,
        query: spec_split_query(loc).1,
    }
}

/// One transition of the redirect-following fetch.
///
/// - A transport failure ends the fetch with `TransportError`.
/// - A 200 ends it with the response.
/// - A redirect status with a `Location` follows it, up to
///   [`MAX_REDIRECTS`] hops; past the bound the fetch fails with
///   `RedirectExhausted`, and a redirect without a `Location` fails with
///   `MalformedResponse`.
/// - A 404 ends the fetch with `StatusError(404)`.
/// - Any other status is retried at the same URL, against the same hop
///   bound.
pub open spec fn redirect_transition(st: RedirectV, ev: EventV) -> RedirectStepV {
    match ev {
        EventV::Transport(cause) => RedirectStepV::Done(Err(ErrV::Transport(cause))),
        EventV::Response { status, location, body } => {
            if status == 200 {
                RedirectStepV::Done(Ok(RespV { status: 200, body }))
            } else if is_redirect_status(status) {
                match location {
                    None => RedirectStepV::Done(Err(ErrV::Malformed)),
                    Some(loc) => {
                        if st.hops >= MAX_REDIRECTS {
                            RedirectStepV::Done(Err(ErrV::RedirectExhausted))
                        } else {
                            RedirectStepV::Request(
                                RedirectV {
                                    current: redirect_target(st.current, loc),
                                    hops: (st.hops + 1) as u32,
                                },
                            )
                        }
                    },
                }
            } else if status == 404 {
                RedirectStepV::Done(Err(ErrV::Status(404)))
            } else {
                if st.hops >= MAX_REDIRECTS {
                    RedirectStepV::Done(Err(ErrV::RedirectExhausted))
                } else {
                    RedirectStepV::Request(RedirectV { current: st.current, hops: (st.hops + 1) as u32 }
                    )
                }
            }
        },
    }
}

/// Splits a `Location` value into path and query at the first `?`.
fn split_query(loc: &Vec<u8>) -> (r: (Vec<u8>, Vec<u8>))
    ensures
        r.0@ == spec_split_query(loc@).0,
        r.1@ == spec_split_query(loc@).1,
{
    proof {
        lemma_find_byte(loc@, 63);
    }
    match find_byte(loc, 63) {
        Some(i) => {
            let n = loc.len();
            let p = subrange_bytes(loc, 0, i);
            let q = subrange_bytes(loc, i + 1, n);
            proof {
                assert(p@ =~= loc@.take(i as int));
                assert(q@ =~= loc@.skip(i + 1));
            }
            (p, q)
        },
        None => {
            let p = clone_bytes(loc);
            let q: Vec<u8> = Vec::new();
            (p, q)
        },
    }
}

/// Feeds one network answer into a redirect-following fetch.
pub fn redirect_step(st: RedirectState, ev: HttpEvent) -> (r: RedirectStep)
    ensures
        r@ == redirect_transition(st@, ev@),
{
    match ev {
        HttpEvent::Transport(cause) => RedirectStep::Done(Err(HTTPError::TransportError(cause))),
        HttpEvent::Response { status, location, body } => {
            if status == 200 {
                RedirectStep::Done(Ok(GetResponse { status: 200, body }))
            } else if status == 301 || status == 302 || status == 303 || status == 307 || status
                == 308 {
                match location {
                    None => RedirectStep::Done(Err(HTTPError::MalformedResponse)),
                    Some(loc) => {
                        if st.hops >= MAX_REDIRECTS {
                            RedirectStep::Done(Err(HTTPError::RedirectExhausted))
                        } else {
                            let (path, query) = split_query(&loc);
                            let next = Url {
                                scheme: st.current.scheme,
                                host: st.current.host,
                                path,
                                query,
                            };
                            proof {
                                assert(next@ =~= redirect_target(st@.current, loc@));
                            }
                            RedirectStep::Request(
                                RedirectState { current: next, hops: st.hops + 1 },
                            )
                        }
                    },
                }
            } else if status == 404 {
                RedirectStep::Done(Err(HTTPError::StatusError(404)))
            } else {
                if st.hops >= MAX_REDIRECTS {
                    RedirectStep::Done(Err(HTTPError::RedirectExhausted))
                } else {
                    RedirectStep::Request(RedirectState { current: st.current, hops: st.hops + 1 })
                }
            }
        },
    }
}

// ---------------------------------------------------------------------------
// The redirect bound, as a law.
// ---------------------------------------------------------------------------

/// The outcome of a redirect-following fetch after a sequence of network
/// answers: the state still in flight, or the final outcome (which stands
/// whatever arrives afterwards).
pub open spec fn run_redirects(st: RedirectV, evs: Seq<EventV>) -> RedirectStepV
    decreases evs.len(),
{
    if evs.len() == 0 {
        RedirectStepV::Request(st)
    } else {
        match redirect_transition(st, evs[0]) {
            RedirectStepV::Request(st2) => run_redirects(st2, evs.drop_first()),
            RedirectStepV::Done(r) => RedirectStepV::Done(r),
        }
    }
}

/// A redirect answer the client can follow.
pub open spec fn is_redirect_event(ev: EventV) -> bool {
    ev matches EventV::Response { status, location, .. } && is_redirect_status(status)
        && location is Some
}

/// A chain of followable redirects ending in a 200 yields the final body,
/// as long as the chain fits into the hop bound: with at most
/// `MAX_REDIRECTS` redirect answers before the success, the fetch returns
/// the last answer's body.
pub proof fn lemma_redirects_within_bound(st: RedirectV, evs: Seq<EventV>, body: Seq<u8>)
    requires
        evs.len() >= 1,
        forall|i: int| 0 <= i < evs.len() - 1 ==> is_redirect_event(#[trigger] evs[i]),
        evs.last() == (EventV::Response { status: 200, location: None, body }),
        st.hops + evs.len() - 1 <= MAX_REDIRECTS,
    ensures
        run_redirects(st, evs) == RedirectStepV::Done(Ok(RespV { status: 200, body })),
    decreases evs.len(),
{
    if evs.len() == 1 {
        assert(evs[0] == evs.last());
    } else {
        assert(is_redirect_event(evs[0]));
        match redirect_transition(st, evs[0]) {
            RedirectStepV::Request(st2) => {
                assert(st2.hops == st.hops + 1);
                lemma_redirects_within_bound(st2, evs.drop_first(), body);
                assert(evs.drop_first().last() == evs.last());
            },
            RedirectStepV::Done(r) => {
                assert(false);
            },
        }
    }
}

/// One redirect answer past the hop bound ends the fetch with
/// `RedirectExhausted`: a fresh fetch fed `MAX_REDIRECTS + 1` redirect
/// answers fails, whatever would have come next.
pub proof fn lemma_redirects_exhausted(st: RedirectV, evs: Seq<EventV>)
    requires
        forall|i: int| 0 <= i < evs.len() ==> is_redirect_event(#[trigger] evs[i]),
        st.hops <= MAX_REDIRECTS,
        st.hops + evs.len() == MAX_REDIRECTS + 1,
    ensures
        run_redirects(st, evs) == RedirectStepV::Done(Err(ErrV::RedirectExhausted)),
    decreases evs.len(),
{
    assert(evs.len() >= 1);
    assert(is_redirect_event(evs[0]));
    if st.hops >= MAX_REDIRECTS {
        assert(evs.len() == 1);
    } else {
        match redirect_transition(st, evs[0]) {
            RedirectStepV::Request(st2) => {
                lemma_redirects_exhausted(st2, evs.drop_first());
            },
            RedirectStepV::Done(r) => {
                assert(false);
            },
        }
    }
}

// ---------------------------------------------------------------------------
// The politeness-checked client.
// ---------------------------------------------------------------------------

/// The fetch client: the agent string it announces and the per-host cache
/// of robots policy texts. Policies are fetched once per host and never
/// expire within a process lifetime.
pub struct HTTPS {
    agent: String,
    robots_txt_cache: Vec<(Vec<u8>, Vec<u8>)>,
}

/// The first cached policy text for `host`, if any.
pub open spec fn cache_lookup(cache: Seq<(Seq<u8>, Seq<u8>)>, host: Seq<u8>) -> Option<Seq<u8>>
    decreases cache.len(),
{
    if cache.len() == 0 {
        None
    } else if cache[0].0 == host {
        Some(cache[0].1)
    } else {
        cache_lookup(cache.drop_first(), host)
    }
}

/// A politeness-checked GET in flight.
#[derive(Debug)]
pub enum GetState {
    /// Fetching the robots policy for `target`'s host first.
    Robots { target: Url, inner: RedirectState },
    /// Fetching the target itself.
    Target { inner: RedirectState },
}

pub ghost enum GetStateV {
    Robots { target: UrlV, inner: RedirectV },
    Target { inner: RedirectV },
}

impl View for GetState {
    type V = GetStateV;

    open spec fn view(&self) -> GetStateV {
        match self {
            GetState::Robots { target, inner } => GetStateV::Robots {
                target: target@,
                inner: inner@,
            },
            GetState::Target { inner } => GetStateV::Target { inner: inner@ },
        }
    }
}

impl GetState {
    /// The URL the embedding program must request next.
    pub fn request_url(&self) -> (u: &Url)
        ensures
            u@ == spec_request_url(self@),
    {
        match self {
            GetState::Robots { inner, .. } => &inner.current,
            GetState::Target { inner } => &inner.current,
        }
    }
}

/// The URL a pending [`GetState`] asks for.
pub open spec fn spec_request_url(st: GetStateV) -> UrlV {
    match st {
        GetStateV::Robots { inner, .. } => inner.current,
        GetStateV::Target { inner } => inner.current,
    }
}

/// What a politeness-checked GET does next.
#[derive(Debug)]
pub enum GetStep {
    /// Request the state's URL and feed the answer to [`HTTPS::get_step`].
    Request(GetState),
    /// The GET is over, well or badly.
    Finished(Result<GetResponse, HTTPError>),
}

pub ghost enum GetStepV {
    Request(GetStateV),
    Finished(Result<RespV, ErrV>),
}

impl View for GetStep {
    type V = GetStepV;

    open spec fn view(&self) -> GetStepV {
        match self {
            GetStep::Request(st) => GetStepV::Request(st@),
            GetStep::Finished(Ok(resp)) => GetStepV::Finished(Ok(resp@)),
            GetStep::Finished(Err(e)) => GetStepV::Finished(Err(e@)),
        }
    }
}

/// The robots policy URL for the host of `u`.
pub open spec fn robots_url(u: UrlV) -> UrlV {
    UrlV {
        scheme: u.scheme,
        host: u.host,
        path: "/robots.txt".spec_bytes(),
        query: Seq::empty(),
    }
}

/// How a politeness-checked GET of `u` begins, given the cache.
///
/// With a cached policy for the host, the path is judged at once: denial
/// finishes with `PolitenessDenied` before any request is made for `u`;
/// permission requests `u` itself. Without a cached policy, the robots
/// policy URL is requested first. The cache is not changed.
pub open spec fn get_start_transition(cache: Seq<(Seq<u8>, Seq<u8>)>, u: UrlV) -> GetStepV {
    match cache_lookup(cache, u.host) {
        Some(robots) => {
            if spec_robots_ok(robots, u.path) {
                GetStepV::Request(GetStateV::Target { inner: RedirectV { current: u, hops: 0 } })
            } else {
                GetStepV::Finished(Err(ErrV::PolitenessDenied))
            }
        },
        None => GetStepV::Request(
            GetStateV::Robots { target: u, inner: RedirectV { current: robots_url(u), hops: 0 } },
        ),
    }
}

/// How a politeness-checked GET continues after one network answer, and
/// the cache after it.
///
/// While the robots policy is being fetched, redirect transitions apply to
/// that inner fetch; its success caches the policy body for the host —
/// whatever the verdict — and then either requests the target (a fresh
/// redirect fetch) or finishes with `PolitenessDenied`; its failure
/// finishes with that failure. While the target is being fetched, redirect
/// transitions decide alone, and the cache is not touched.
pub open spec fn get_step_transition(cache: Seq<(Seq<u8>, Seq<u8>)>, st: GetStateV, ev: EventV) -> (
    GetStepV,
    Seq<(Seq<u8>, Seq<u8>)>,
) {
    match st {
        GetStateV::Robots { target, inner } => {
            match redirect_transition(inner, ev) {
                RedirectStepV::Request(inner2) => (
                    GetStepV::Request(GetStateV::Robots { target, inner: inner2 }),
                    cache,
                ),
                RedirectStepV::Done(Ok(resp)) => {
                    let cache2 = cache.insert(0, (target.host, resp.body));
                    if spec_robots_ok(resp.body, target.path) {
                        (
                            GetStepV::Request(
                                GetStateV::Target {
                                    inner: RedirectV { current: target, hops: 0 },
                                },
                            ),
                            cache2,
                        )
                    } else {
                        (GetStepV::Finished(Err(ErrV::PolitenessDenied)), cache2)
                    }
                },
                RedirectStepV::Done(Err(e)) => (GetStepV::Finished(Err(e)), cache),
            }
        },
        GetStateV::Target { inner } => {
            match redirect_transition(inner, ev) {
                RedirectStepV::Request(inner2) => (
                    GetStepV::Request(GetStateV::Target { inner: inner2 }),
                    cache,
                ),
                RedirectStepV::Done(r) => (GetStepV::Finished(r), cache),
            }
        },
    }
}

impl HTTPS {
    /// The cached robots policy texts, newest first.
    pub closed spec fn cache(&self) -> Seq<(Seq<u8>, Seq<u8>)> {
        self.robots_txt_cache@.map_values(|p: (Vec<u8>, Vec<u8>)| (p.0@, p.1@))
    }

    /// The characters of the agent string.
    pub closed spec fn spec_agent(&self) -> Seq<char> {
        self.agent@
    }

    /// A client with the crawler's agent string and an empty policy cache.
    pub fn new() -> (h: HTTPS)
        ensures
            h.cache() == Seq::<(Seq<u8>, Seq<u8>)>::empty(),
            h.spec_agent() == "scrapeprice (lbo@spheniscida.de)"@,
    {
        let h = HTTPS {
            agent: "scrapeprice (lbo@spheniscida.de)".to_owned(),
            robots_txt_cache: Vec::new(),
        };
        proof {
            assert(h.cache() =~= Seq::<(Seq<u8>, Seq<u8>)>::empty());
        }
        h
    }

    /// The `User-Agent` value to send with every request.
    pub fn agent_str(&self) -> (a: &String)
        ensures
            a@ == self.spec_agent(),
    {
        &self.agent
    }

    /// The first cached policy for `host`, by a linear scan.
    fn lookup(&self, host: &Vec<u8>) -> (r: Option<&Vec<u8>>)
        ensures
            match r {
                Some(b) => cache_lookup(self.cache(), host@) == Some(b@),
                None => cache_lookup(self.cache(), host@) is None,
            },
    {
        proof {
            assert(self.cache().skip(0) =~= self.cache());
        }
        let mut i: usize = 0;
        while i < self.robots_txt_cache.len()
            invariant
                0 <= i <= self.robots_txt_cache@.len(),
                self.cache().len() == self.robots_txt_cache@.len(),
                forall|k: int| 0 <= k < self.cache().len() ==> #[trigger] self.cache()[k] == (
                self.robots_txt_cache@[k].0@,
                self.robots_txt_cache@[k].1@,
                ),
                cache_lookup(self.cache(), host@) == cache_lookup(
                    self.cache().skip(i as int),
                    host@,
                ),
            decreases self.robots_txt_cache@.len() - i,
        {
            proof {
                assert(self.cache().skip(i as int)[0] == self.cache()[i as int]);
                assert(self.cache().skip(i as int).drop_first() =~= self.cache().skip(i + 1));
            }
            if bytes_eq(&self.robots_txt_cache[i].0, host) {
                return Some(&self.robots_txt_cache[i].1);
            }
            i = i + 1;
        }
        proof {
            assert(self.cache().skip(i as int) =~= Seq::<(Seq<u8>, Seq<u8>)>::empty());
        }
        None
    }

    /// Starts a politeness-checked GET of `url`.
    ///
    /// No network answer is needed yet: the result either finishes at once
    /// (a cached policy denies the path, and no request for `url` is made)
    /// or names the first URL to request.
    pub fn get(&self, url: &Url) -> (r: GetStep)
        ensures
            r@ == get_start_transition(self.cache(), url@),
    {
        match self.lookup(&url.host) {
            Some(robots) => {
                let robots_copy = clone_bytes(robots);
                if robots_ok(&robots_copy, url.path.as_slice()) {
                    GetStep::Request(
                        GetState::Target { inner: RedirectState::start(url) },
                    )
                } else {
                    GetStep::Finished(Err(HTTPError::PolitenessDenied))
                }
            },
            None => {
                let target = url.duplicate();
                let robots_path: Vec<u8> = slice_to_vec("/robots.txt".as_bytes());
                let ru = Url {
                    scheme: clone_bytes(&url.scheme),
                    host: clone_bytes(&url.host),
                    path: robots_path,
                    query: Vec::new(),
                };
                proof {
                    assert(ru@ =~= robots_url(url@));
                }
                GetStep::Request(
                    GetState::Robots { target, inner: RedirectState { current: ru, hops: 0 } },
                )
            },
        }
    }

    /// Continues a politeness-checked GET with one network answer.
    ///
    /// Success of the inner robots fetch caches the policy text for the
    /// target's host; nothing else changes the cache.
    pub fn get_step(&mut self, st: GetState, ev: HttpEvent) -> (r: GetStep)
        ensures
            r@ == get_step_transition(old(self).cache(), st@, ev@).0,
            final(self).cache() == get_step_transition(old(self).cache(), st@, ev@).1,
            final(self).spec_agent() == old(self).spec_agent(),
    {
        match st {
            GetState::Robots { target, inner } => {
                match redirect_step(inner, ev) {
                    RedirectStep::Request(inner2) => GetStep::Request(
                        GetState::Robots { target, inner: inner2 },
                    ),
                    RedirectStep::Done(Ok(resp)) => {
                        let host = clone_bytes(&target.host);
                        let body = clone_bytes(&resp.body);
                        let allowed = robots_ok(&resp.body, target.path.as_slice());
                        self.robots_txt_cache.insert(0, (host, body));
                        proof {
                            assert(self.cache() =~= old(self).cache().insert(
                                0,
                                (target@.host, resp@.body),
                            ));
                        }
                        if allowed {
                            GetStep::Request(
                                GetState::Target { inner: RedirectState::start(&target) },
                            )
                        } else {
                            GetStep::Finished(Err(HTTPError::PolitenessDenied))
                        }
                    },
                    RedirectStep::Done(Err(e)) => GetStep::Finished(Err(e)),
                }
            },
            GetState::Target { inner } => {
                match redirect_step(inner, ev) {
                    RedirectStep::Request(inner2) => GetStep::Request(
                        GetState::Target { inner: inner2 },
                    ),
                    RedirectStep::Done(r) => GetStep::Finished(r),
                }
            },
        }
    }
}

/// Decodes a fetched body as UTF-8 text.
///
/// Relies on `String::from_utf8`: it returns `Ok` exactly on valid UTF-8,
/// with the decoded characters, and never panics.
#[verifier::external_body]
pub fn bytes_to_str(b: Vec<u8>) -> (r: Result<String, HTTPError>)
    ensures
        match r {
            Ok(s) => vstd::utf8::valid_utf8(b@) && s@ == vstd::utf8::decode_utf8(b@),
            Err(e) => !vstd::utf8::valid_utf8(b@) && e@ matches ErrV::Encoding(_),
        },
{
    match String::from_utf8(b) {
        Ok(s) => Ok(s),
        Err(e) => Err(HTTPError::EncodingError(e.to_string())),
    }
}

} // verus!
