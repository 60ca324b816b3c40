//! Implementations of the driver's pluggable parts for one concrete shop.

use vstd::prelude::*;
use vstd::slice::slice_to_vec;
use vstd::string::StrSliceExecFns;
use vstd::string::StringSliceAdditionalSpecFns;

use crate::driver::{Explorer, Extractor, Queue, Storage};
use crate::err::HTTPError;
use crate::extract::{Document, inner_texts, selector_valid};
use crate::url::{Url, UrlV, url_eq, url_views};
use crate::util::ScrapedPrice;

verus! {

/// Whether `u` occurs among the views of `v`.
fn contains_url(v: &Vec<Url>, u: &Url) -> (r: bool)
    ensures
        r <==> url_views(v@).contains(u@),
{
    let ghost m = url_views(v@);
    let mut i: usize = 0;
    while i < v.len()
        invariant
            0 <= i <= v@.len(),
            m == url_views(v@),
            m.len() == v@.len(),
            forall|k: int| 0 <= k < m.len() ==> m[k] == v@[k]@,
            forall|k: int| 0 <= k < i ==> m[k] != u@,
        decreases v@.len() - i,
    {
        if url_eq(&v[i], u) {
            assert(m[i as int] == u@);
            assert(m.contains(u@));
            return true;
        }
        i = i + 1;
    }
    false
}

/// The pending URLs after a batch is offered to a frontier that skips
/// URLs already seen: each offered URL is appended unless it is in `seen`.
pub open spec fn admit_urls(pending: Seq<UrlV>, seen: Set<UrlV>, urls: Seq<UrlV>) -> Seq<UrlV>
    decreases urls.len(),
{
    if urls.len() == 0 {
        pending
    } else {
        let next = if seen.contains(urls[0]) {
            pending
        } else {
            pending.push(urls[0])
        };
        admit_urls(next, seen, urls.drop_first())
    }
}

/// Whatever `admit_urls` appends comes from `urls`.
pub proof fn lemma_admit_urls_contains(pending: Seq<UrlV>, seen: Set<UrlV>, urls: Seq<UrlV>)
    ensures
        forall|u: UrlV|
            admit_urls(pending, seen, urls).contains(u) ==> pending.contains(u) || urls.contains(
                u,
            ),
    decreases urls.len(),
{
    if urls.len() > 0 {
        let next = if seen.contains(urls[0]) {
            pending
        } else {
            pending.push(urls[0])
        };
        lemma_admit_urls_contains(next, seen, urls.drop_first());
        assert forall|u: UrlV| admit_urls(pending, seen, urls).contains(u) implies pending.contains(
            u,
        ) || urls.contains(u) by {
            if next.contains(u) {
                if !pending.contains(u) {
                    let i = choose|i: int| 0 <= i < next.len() && next[i] == u;
                    assert(next[next.len() - 1] == u);
                    assert(urls[0] == u);
                }
            } else if urls.drop_first().contains(u) {
                let i = choose|i: int| 0 <= i < urls.drop_first().len() && urls.drop_first()[i]
                    == u;
                assert(urls[i + 1] == u);
            }
        }
    }
}

/// The part of an offered batch that a frontier skipping seen URLs takes:
/// the batch's URLs, in order, without those in `seen`.
pub open spec fn admitted(seen: Set<UrlV>, urls: Seq<UrlV>) -> Seq<UrlV>
    decreases urls.len(),
{
    if urls.len() == 0 {
        seq![]
    } else {
        let head: Seq<UrlV> = if seen.contains(urls[0]) {
            seq![]
        } else {
            seq![urls[0]]
        };
        head + admitted(seen, urls.drop_first())
    }
}

/// Offering a batch only appends: the pending URLs already there stay, in
/// order, and what follows them is the admitted part of the batch.
pub proof fn lemma_admit_urls_appends(pending: Seq<UrlV>, seen: Set<UrlV>, urls: Seq<UrlV>)
    ensures
        admit_urls(pending, seen, urls) == pending + admitted(seen, urls),
        forall|u: UrlV| #[trigger] admitted(seen, urls).contains(u) ==> urls.contains(u),
    decreases urls.len(),
{
    if urls.len() == 0 {
        assert(pending + admitted(seen, urls) =~= pending);
    } else {
        let head: Seq<UrlV> = if seen.contains(urls[0]) {
            seq![]
        } else {
            seq![urls[0]]
        };
        let next = if seen.contains(urls[0]) {
            pending
        } else {
            pending.push(urls[0])
        };
        assert(next =~= pending + head);
        lemma_admit_urls_appends(next, seen, urls.drop_first());
        assert((pending + head) + admitted(seen, urls.drop_first()) =~= pending + (head
            + admitted(seen, urls.drop_first())));
        assert forall|u: UrlV| #[trigger] admitted(seen, urls).contains(u) implies urls.contains(
            u,
        ) by {
            let tail = admitted(seen, urls.drop_first());
            let i = choose|i: int| 0 <= i < admitted(seen, urls).len() && admitted(seen, urls)[i]
                == u;
            if i < head.len() {
                assert(urls[0] == u);
            } else {
                assert(tail[i - head.len()] == u);
                assert(tail.contains(u));
                let j = choose|j: int| 0 <= j < urls.drop_first().len() && urls.drop_first()[j]
                    == u;
                assert(urls[j + 1] == u);
            }
        }
    }
}

/// A batch of URLs that were all seen already changes nothing: offering a
/// visited URL to the frontier is a no-op, so it can never be yielded
/// again on that account.
pub proof fn lemma_visited_urls_not_readded(pending: Seq<UrlV>, seen: Set<UrlV>, urls: Seq<UrlV>)
    requires
        forall|i: int| 0 <= i < urls.len() ==> seen.contains(#[trigger] urls[i]),
    ensures
        admit_urls(pending, seen, urls) == pending,
    decreases urls.len(),
{
    if urls.len() > 0 {
        assert(seen.contains(urls[0]));
        lemma_visited_urls_not_readded(pending, seen, urls.drop_first());
    }
}

/// Once a URL has been marked visited, offering it again changes the
/// pending sequence not at all: it cannot be yielded again on account of
/// that offer, since `next` yields only pending URLs.
pub proof fn lemma_visited_add_is_noop(pending: Seq<UrlV>, seen: Set<UrlV>, u: UrlV)
    requires
        seen.contains(u),
    ensures
        admit_urls(pending, seen, seq![u]) == pending,
{
    lemma_visited_urls_not_readded(pending, seen, seq![u]);
}

/// Two seeded URLs, two crawl steps with an extractor that discovers
/// nothing: both end up visited and the pending sequence is drained, so a
/// further `next` finds nothing. The frontier transitions here are exactly
/// those the contracts of `next`, `add` and `visited` prescribe for two
/// successful steps.
pub proof fn lemma_two_seeds_drained(a: UrlV, b: UrlV)
    ensures
        ({
            let p0 = seq![a, b];
            let s0 = Set::<UrlV>::empty();
            let p1 = admit_urls(p0.drop_first(), s0, Seq::empty());
            let s1 = s0.insert(a);
            let p2 = admit_urls(p1.drop_first(), s1, Seq::empty());
            let s2 = s1.insert(b);
            p0[0] == a && p1[0] == b && p2.len() == 0 && s2.contains(a) && s2.contains(b)
        }),
{
    let p0 = seq![a, b];
    assert(p0.drop_first() =~= seq![b]);
    assert(seq![b].drop_first() =~= Seq::<UrlV>::empty());
}

/// A FIFO frontier over the shop's site: pending URLs in arrival order,
/// and the set of URLs already fetched. A URL that was marked visited is
/// silently skipped when offered again.
pub struct AudiophilQueue {
    q: Vec<Url>,
    visited: Vec<Url>,
}

/// The host all seed URLs point at.
pub open spec fn seed_host() -> Seq<u8> {
    "audiophil-foto.de".spec_bytes()
}

/// A seed URL: HTTPS on the shop's host, with the given path.
pub open spec fn seed_url(path: Seq<u8>) -> UrlV {
    UrlV { scheme: "https".spec_bytes(), host: seed_host(), path, query: Seq::empty() }
}

/// The seed set: the shop's camera and lens listings.
pub open spec fn seed_urls() -> Seq<UrlV> {
    seq![
        seed_url("/de/shop/kameras/sony/".spec_bytes()),
        seed_url("/de/shop/kameras/pentax-ricoh/".spec_bytes()),
        seed_url("/de/shop/kameras/leica/".spec_bytes()),
        seed_url("/de/shop/objektive/sony/".spec_bytes()),
        seed_url("/de/shop/objektive/zeiss/".spec_bytes()),
        seed_url("/de/shop/objektive/sigma/".spec_bytes()),
    ]
}

/// Builds one seed URL on the shop's host.
fn seed(path: &str) -> (u: Url)
    ensures
        u@ == seed_url(path.spec_bytes()),
{
    let u = Url {
        scheme: slice_to_vec("https".as_bytes()),
        host: slice_to_vec("audiophil-foto.de".as_bytes()),
        path: slice_to_vec(path.as_bytes()),
        query: Vec::new(),
    };
    proof {
        assert(u@ =~= seed_url(path.spec_bytes()));
    }
    u
}

impl AudiophilQueue {
    /// A frontier holding the seed set, with nothing visited yet.
    pub fn new() -> (r: AudiophilQueue)
        ensures
            r.pending() == seed_urls(),
            r.seen() == Set::<UrlV>::empty(),
    {
        let mut q: Vec<Url> = Vec::new();
        q.push(seed("/de/shop/kameras/sony/"));
        q.push(seed("/de/shop/kameras/pentax-ricoh/"));
        q.push(seed("/de/shop/kameras/leica/"));
        q.push(seed("/de/shop/objektive/sony/"));
        q.push(seed("/de/shop/objektive/zeiss/"));
        q.push(seed("/de/shop/objektive/sigma/"));
        let r = AudiophilQueue { q, visited: Vec::new() };
        proof {
            assert(r.pending() =~= seed_urls());
            assert(r.seen() =~= Set::<UrlV>::empty());
        }
        r
    }
}

impl Queue for AudiophilQueue {
    closed spec fn pending(&self) -> Seq<UrlV> {
        url_views(self.q@)
    }

    closed spec fn seen(&self) -> Set<UrlV> {
        url_views(self.visited@).to_set()
    }

    /// Appends the offered URLs in order, skipping any already seen.
    fn add(&mut self, urls: &Vec<Url>) -> (r: Result<(), HTTPError>)
        ensures
            final(self).pending() == admit_urls(
                old(self).pending(),
                old(self).seen(),
                url_views(urls@),
            ),
            r is Ok,
    {
        let ghost all = url_views(urls@);
        let ghost seen0 = self.seen();
        let ghost pending0 = self.pending();
        proof {
            assert(all.skip(0) =~= all);
        }
        let mut i: usize = 0;
        while i < urls.len()
            invariant
                0 <= i <= urls@.len(),
                all.len() == urls@.len(),
                forall|k: int| 0 <= k < all.len() ==> all[k] == urls@[k]@,
                self.seen() == seen0,
                self.visited@ == old(self).visited@,
                admit_urls(pending0, seen0, all) == admit_urls(
                    self.pending(),
                    seen0,
                    all.skip(i as int),
                ),
            decreases urls@.len() - i,
        {
            let ghost before = self.pending();
            proof {
                assert(all.skip(i as int)[0] == all[i as int]);
                assert(all.skip(i as int).drop_first() =~= all.skip(i + 1));
            }
            if !contains_url(&self.visited, &urls[i]) {
                self.q.push(urls[i].duplicate());
                proof {
                    assert(self.pending() =~= before.push(all[i as int]));
                }
            }
            i = i + 1;
        }
        proof {
            assert(all.skip(i as int) =~= Seq::<UrlV>::empty());
            lemma_admit_urls_contains(pending0, seen0, all);
            lemma_admit_urls_appends(pending0, seen0, all);
        }
        Ok(())
    }

    /// Yields the oldest pending URL, FIFO.
    fn next(&mut self) -> (r: Result<Option<Url>, HTTPError>)
        ensures
            r is Ok,
            r matches Ok(Some(u)) ==> old(self).pending().len() > 0 && u@ == old(
                self,
            ).pending()[0] && final(self).pending() == old(self).pending().drop_first(),
    {
        if self.q.is_empty() {
            return Ok(None);
        }
        let u = self.q.remove(0);
        proof {
            assert(self.pending() =~= old(self).pending().remove(0));
            assert(old(self).pending().remove(0) =~= old(self).pending().drop_first());
            assert(old(self).pending()[0] == u@);
            assert(self.seen() == old(self).seen());
        }
        Ok(Some(u))
    }

    /// Records `url` as fetched; offering it to `add` later is a no-op.
    fn visited(&mut self, url: &Url) -> (r: Result<(), HTTPError>)
        ensures
            r is Ok,
    {
        let ghost m0 = url_views(self.visited@);
        if !contains_url(&self.visited, url) {
            self.visited.push(url.duplicate());
            proof {
                let m1 = url_views(self.visited@);
                assert(m1 =~= m0.push(url@));
                assert forall|x: UrlV| m1.contains(x) <==> m0.contains(x) || x == url@ by {
                    if m1.contains(x) {
                        let i = choose|i: int| 0 <= i < m1.len() && m1[i] == x;
                        if i < m0.len() {
                            assert(m0[i] == x);
                        }
                    } else {
                        assert(!m0.contains(x)) by {
                            if m0.contains(x) {
                                let i = choose|i: int| 0 <= i < m0.len() && m0[i] == x;
                                assert(m1[i] == x);
                            }
                        }
                        assert(m1[m1.len() - 1] == url@);
                    }
                }
                assert(self.seen() =~= old(self).seen().insert(url@));
            }
        } else {
            proof {
                assert(self.seen() =~= old(self).seen().insert(url@));
            }
        }
        Ok(())
    }
}

/// The explorer over the shop's site: hands the seed set out once, and
/// discovers nothing from fetched pages.
pub struct AudiophilExplorer {
    known: Vec<Url>,
}

impl AudiophilExplorer {
    /// An explorer holding the seed set.
    pub fn new() -> (r: AudiophilExplorer)
        ensures
            r.known() == seed_urls(),
    {
        let mut known: Vec<Url> = Vec::new();
        known.push(seed("/de/shop/kameras/sony/"));
        known.push(seed("/de/shop/kameras/pentax-ricoh/"));
        known.push(seed("/de/shop/kameras/leica/"));
        known.push(seed("/de/shop/objektive/sony/"));
        known.push(seed("/de/shop/objektive/zeiss/"));
        known.push(seed("/de/shop/objektive/sigma/"));
        let r = AudiophilExplorer { known };
        proof {
            assert(r.known() =~= seed_urls());
        }
        r
    }

    /// The URLs not yet handed out.
    pub closed spec fn known(&self) -> Seq<UrlV> {
        url_views(self.known@)
    }

    /// Hands out everything it knows and keeps nothing.
    pub fn drain_known(&mut self) -> (r: Vec<Url>)
        ensures
            url_views(r@) == old(self).known(),
            final(self).known() == Seq::<UrlV>::empty(),
    {
        let mut out: Vec<Url> = Vec::new();
        core::mem::swap(&mut self.known, &mut out);
        proof {
            assert(self.known() =~= Seq::<UrlV>::empty());
        }
        out
    }
}

impl Explorer for AudiophilExplorer {
    /// The seed set, handed out once: afterwards nothing is known.
    fn idle(&mut self) -> (r: Vec<Url>)
        ensures
            url_views(r@) == old(self).known(),
            final(self).known() == Seq::<UrlV>::empty(),
    {
        self.drain_known()
    }

    fn next(&mut self, _doc: &Document) -> (r: Vec<Url>)
        ensures
            r@.len() == 0,
    {
        Vec::new()
    }
}


// ---------------------------------------------------------------------------
// Text clean-up for extracted fields.
// ---------------------------------------------------------------------------

/// Whether `c` counts as whitespace; names what `char::is_whitespace`
/// returns, which depends on the character alone.
pub uninterp spec fn is_space(c: char) -> bool;

/// `s` without leading whitespace.
pub open spec fn trim_start_c(s: Seq<char>) -> Seq<char>
    decreases s.len(),
{
    if s.len() > 0 && is_space(s[0]) {
        trim_start_c(s.drop_first())
    } else {
        s
    }
}

/// `s` without trailing whitespace.
pub open spec fn trim_end_c(s: Seq<char>) -> Seq<char>
    decreases s.len(),
{
    if s.len() > 0 && is_space(s.last()) {
        trim_end_c(s.drop_last())
    } else {
        s
    }
}

/// `s` without leading and trailing whitespace.
pub open spec fn trim_spec(s: Seq<char>) -> Seq<char> {
    trim_end_c(trim_start_c(s))
}

/// Relies on `str::trim`: it removes exactly the leading and trailing
/// characters for which `char::is_whitespace` holds, so the result neither
/// starts nor ends with one.
#[verifier::external_body]
fn trim_str(s: &str) -> (r: &str)
    ensures
        r@ == trim_spec(s@),
        r@.len() > 0 ==> !is_space(r@[0]) && !is_space(r@.last()),
{
    s.trim()
}

/// The whole match's positions — start and one-past-end, in characters —
/// when the regular expression `pattern` matches in `s`, and `None` when it
/// does not match or does not compile; a function of the two texts alone.
pub uninterp spec fn re_prefix_match(pattern: Seq<char>, s: Seq<char>) -> Option<(usize, usize)>;

/// Relies on `rex_regex::compile` and `rex_regex::match_re`. Only the one
/// pattern this crate matches with is admitted: `compile` panics on
/// degenerate patterns (an empty pattern, an empty group, a trailing
/// alternation), and for patterns with groups or alternation the submatch
/// bookkeeping drains hash maps whose order the result may depend on. For
/// this anchored, group-free pattern the answer is a function of the two
/// texts alone: the whole match's (start, one-past-end) character
/// positions, where the anchor makes the start 0 and keeps the end within
/// the string.
#[verifier::external_body]
fn re_match_first(pattern: &str, s: &str) -> (r: Option<(usize, usize)>)
    requires
        pattern@ == only_text_pattern(),
    ensures
        r == re_prefix_match(pattern@, s@),
        r matches Some(p) ==> p.0 == 0 && p.1 <= s@.len(),
{
    match rex_regex::compile(pattern) {
        Ok(re) => {
            let (ok, ranges) = rex_regex::match_re(&re, s);
            if ok && ranges.len() > 0 {
                Some(ranges[0])
            } else {
                None
            }
        },
        Err(_) => None,
    }
}

/// The characters of `s` from position `start` on, at most `len` of them;
/// out-of-range positions are clamped, as `skip`/`take` on an iterator
/// would.
pub open spec fn spec_substring(s: Seq<char>, start: int, len: int) -> Seq<char> {
    let from = if start <= s.len() {
        start
    } else {
        s.len() as int
    };
    let to = if start + len <= s.len() {
        start + len
    } else {
        s.len() as int
    };
    s.subrange(from, to)
}

/// The characters of `s` from `pos.0` on, at most `pos.1` of them.
pub fn substring(s: String, pos: (usize, usize)) -> (r: String)
    ensures
        r@ == spec_substring(s@, pos.0 as int, pos.1 as int),
{
    let n = s.as_str().unicode_len();
    let from = if pos.0 > n {
        n
    } else {
        pos.0
    };
    let rest = n - from;
    let take = if pos.1 > rest {
        rest
    } else {
        pos.1
    };
    s.as_str().substring_char(from, from + take).to_owned()
}

/// The pattern that keeps plain text: letters, digits, the euro sign and
/// simple punctuation, matched from the start of the field.
pub open spec fn only_text_pattern() -> Seq<char> {
    "^[a-zA-Z0-9\u{20ac}\\.,+/ -]+"@
}

/// A field cleaned for storage: trimmed, and cut down to the leading
/// plain-text match when the pattern finds one. `pos` holds the match's
/// (start, one-past-end) positions; the pattern is anchored, so the start
/// is 0 and the pair also reads as (start, length), which is how
/// `spec_substring` takes it.
pub open spec fn clean_text(s: Seq<char>) -> Seq<char> {
    let t = trim_spec(s);
    match re_prefix_match(only_text_pattern(), t) {
        Some(pos) => spec_substring(t, pos.0 as int, pos.1 as int),
        None => t,
    }
}

/// Cleans one extracted field.
fn clean(s: &str) -> (r: String)
    ensures
        r@ == clean_text(s@),
{
    let t = trim_str(s);
    match re_match_first("^[a-zA-Z0-9\u{20ac}\\.,+/ -]+", t) {
        Some(pos) => substring(t.to_owned(), pos),
        None => t.to_owned(),
    }
}

// ---------------------------------------------------------------------------
// The price extractor.
// ---------------------------------------------------------------------------

/// The selector for item descriptions.
pub open spec fn desc_selector() -> Seq<char> {
    ".bez.neu"@
}

/// The selector for item prices.
pub open spec fn price_selector() -> Seq<char> {
    ".preis strong"@
}

/// Extracts item/price pairs from the shop's listing pages: the elements
/// under the description and price selectors, paired in document order and
/// cleaned.
pub struct AudiophilItemPriceExtractor {}

impl AudiophilItemPriceExtractor {
    /// The records of one listing page: the i-th description paired with
    /// the i-th price, both cleaned, as many pairs as the shorter list
    /// has. A page on which either selector fails yields no records.
    pub fn extract_prices(&self, doc: &Document) -> (r: Vec<ScrapedPrice>)
        ensures
            ({
                let descs = inner_texts(doc@, desc_selector());
                let prices = inner_texts(doc@, price_selector());
                let n = if descs.len() <= prices.len() {
                    descs.len() as int
                } else {
                    prices.len() as int
                };
                if selector_valid(desc_selector()) && selector_valid(price_selector()) {
                    r@.len() == n && forall|i: int|
                        0 <= i < n ==> (#[trigger] r@[i]).item@ == clean_text(descs[i])
                            && r@[i].price@ == clean_text(prices[i]) && r@[i].note == 44
                } else {
                    r@.len() == 0
                }
            }),
    {
        let mut selectors: Vec<String> = Vec::new();
        selectors.push(".bez.neu".to_owned());
        selectors.push(".preis strong".to_owned());
        let mut data = match doc.get_contents(&selectors) {
            Ok(d) => d,
            Err(_) => {
                return Vec::new();
            },
        };
        let ghost descs = inner_texts(doc@, desc_selector());
        let ghost prices = inner_texts(doc@, price_selector());
        let price_texts = match data.pop() {
            Some(v) => v,
            None => {
                proof {
                    assert(false);
                }
                vstd::pervasive::unreached()
            },
        };
        let desc_texts = match data.pop() {
            Some(v) => v,
            None => {
                proof {
                    assert(false);
                }
                vstd::pervasive::unreached()
            },
        };
        proof {
            assert(desc_texts.deep_view() == descs);
            assert(price_texts.deep_view() == prices);
        }
        let n = if desc_texts.len() <= price_texts.len() {
            desc_texts.len()
        } else {
            price_texts.len()
        };
        let mut r: Vec<ScrapedPrice> = Vec::new();
        let mut i: usize = 0;
        while i < n
            invariant
                desc_texts.deep_view() == descs,
                price_texts.deep_view() == prices,
                n <= desc_texts@.len(),
                n <= price_texts@.len(),
                n == if descs.len() <= prices.len() {
                    descs.len() as int
                } else {
                    prices.len() as int
                },
                0 <= i <= n,
                r@.len() == i,
                forall|k: int|
                    0 <= k < i ==> (#[trigger] r@[k]).item@ == clean_text(descs[k])
                        && r@[k].price@ == clean_text(prices[k]) && r@[k].note == 44,
            decreases n - i,
        {
            let item = clean(desc_texts[i].as_str());
            let price = clean(price_texts[i].as_str());
            r.push(ScrapedPrice { item, price, note: 44 });
            i = i + 1;
        }
        r
    }
}

impl Extractor<ScrapedPrice> for AudiophilItemPriceExtractor {
    /// Extracts the page's item/price pairs; the URL plays no part.
    fn extract(&mut self, _url: &Url, doc: &Document) -> (r: Vec<ScrapedPrice>)
        ensures
            ({
                let descs = inner_texts(doc@, desc_selector());
                let prices = inner_texts(doc@, price_selector());
                let n = if descs.len() <= prices.len() {
                    descs.len() as int
                } else {
                    prices.len() as int
                };
                if selector_valid(desc_selector()) && selector_valid(price_selector()) {
                    r@.len() == n && forall|i: int|
                        0 <= i < n ==> (#[trigger] r@[i]).item@ == clean_text(descs[i])
                            && r@[i].price@ == clean_text(prices[i]) && r@[i].note == 44
                } else {
                    r@.len() == 0
                }
            }),
    {
        self.extract_prices(doc)
    }

    /// This extractor discovers no further pages.
    fn next_sites(&mut self, _url: &Url, _doc: &Document) -> (r: Vec<Url>)
        ensures
            r@.len() == 0,
    {
        Vec::new()
    }
}

/// A sink for plain key/value pairs that accepts every batch and keeps
/// nothing.
#[derive(Debug)]
pub struct DebuggingStorage {}

impl Storage<(String, String)> for DebuggingStorage {
    /// Accepts every batch; nothing is kept.
    fn store(&mut self, _records: Vec<(String, String)>) -> (r: Result<(), HTTPError>)
        ensures
            r is Ok,
    {
        Ok(())
    }
}

} // verus!
