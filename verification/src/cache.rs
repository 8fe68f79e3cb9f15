//! The response cache and the per-request serve-or-refresh decision: one
//! rendered document per brand id with its write stamp, overwritten on
//! refresh and never evicted. Freshness is judged by the caller's clock
//! against the configured lifetime, so a stale entry stays readable.

use vstd::prelude::*;

use std::collections::HashMap;

use crate::feed::{api_url_for, spec_api_url};
use crate::text::{parse_u64_digits, parse_u64_spec};

verus! {

broadcast use vstd::std_specs::hash::group_hash_axioms;

/// One cached response: the rendered document and when it was written.
pub struct RssCache {
    pub body: String,
    pub cached_at: i64,
}

/// The response cache: at most one entry per brand id. Entries are keyed
/// by the parsed numeric id, so spellings of one number ("7", "007")
/// share a single entry.
pub struct FeedCache {
    map: HashMap<u64, RssCache>,
}

impl View for FeedCache {
    type V = Map<u64, (Seq<char>, i64)>;

    closed spec fn view(&self) -> Map<u64, (Seq<char>, i64)> {
        Map::new(
            |k: u64| self.map@.contains_key(k),
            |k: u64| (self.map@[k].body@, self.map@[k].cached_at),
        )
    }
}

impl FeedCache {
    /// An empty cache.
    pub fn new() -> (r: FeedCache)
        ensures
            r@ == Map::<u64, (Seq<char>, i64)>::empty(),
    {
        let r = FeedCache { map: HashMap::new() };
        proof {
            assert(r@ =~= Map::<u64, (Seq<char>, i64)>::empty());
        }
        r
    }

    /// The entry stored for a brand id, fresh or stale.
    pub fn lookup(&self, brand: u64) -> (r: Option<&RssCache>)
        ensures
            match r {
                Some(e) => self@.contains_key(brand) && self@[brand] == (e.body@, e.cached_at),
                None => !self@.contains_key(brand),
            },
    {
        self.map.get(&brand)
    }

    /// Writes the entry for a brand id, replacing any previous one.
    pub fn store(&mut self, brand: u64, body: String, now: i64)
        ensures
            final(self)@ == old(self)@.insert(brand, (body@, now)),
    {
        let ghost b = body@;
        self.map.insert(brand, RssCache { body, cached_at: now });
        proof {
            assert(self@ =~= old(self)@.insert(brand, (b, now)));
        }
    }
}

/// Freshness rule: an entry written at `cached_at` is still fresh at `now`
/// while strictly less than `lifetime` seconds have passed.
pub open spec fn spec_is_fresh(now: int, cached_at: int, lifetime: int) -> bool {
    now - cached_at < lifetime
}

/// Decides whether a cache entry written at `cached_at` may still be
/// served at `now`, given the configured lifetime in seconds.
pub fn is_fresh(now: i64, cached_at: i64, lifetime: u16) -> (r: bool)
    ensures
        r == spec_is_fresh(now as int, cached_at as int, lifetime as int),
{
    (now as i128) - (cached_at as i128) < (lifetime as i128)
}

/// What the orchestrator does for one request.
pub enum RequestStep {
    /// The brand id is not a plain decimal number: answer 400.
    BadRequest,
    /// A fresh entry exists: serve its body with its cache stamp.
    Serve { body: String, cached_at: i64 },
    /// No fresh entry: fetch the catalog from this URL and rebuild.
    Refresh { brand_id: u64, url: String },
}

/// The serve-or-refresh decision: the stored entry when one exists and is
/// fresh at `now`, nothing otherwise.
pub open spec fn spec_decision(
    cache: Map<u64, (Seq<char>, i64)>,
    brand: u64,
    lifetime: u16,
    now: int,
) -> Option<(Seq<char>, i64)> {
    if cache.contains_key(brand) && spec_is_fresh(now, cache[brand].1 as int, lifetime as int) {
        Some(cache[brand])
    } else {
        None
    }
}

/// Decides one request: a brand id that is not a plain decimal number is
/// rejected; a fresh cache entry is served byte for byte as stored with
/// its stamp; otherwise the upstream catalog URL for the brand is to be
/// fetched and the feed rebuilt.
pub fn plan_request(cache: &FeedCache, raw_id: &str, limit: u16, lifetime: u16, now: i64) -> (r:
    RequestStep)
    ensures
        match parse_u64_spec(raw_id@) {
            None => r is BadRequest,
            Some(b) => match spec_decision(cache@, b, lifetime, now as int) {
                Some(e) => r matches RequestStep::Serve { body, cached_at } && body@ == e.0
                    && cached_at == e.1,
                None => r matches RequestStep::Refresh { brand_id, url } && brand_id == b && url@
                    == spec_api_url(b, limit),
            },
        },
{
    let brand = match parse_u64_digits(raw_id) {
        Some(b) => b,
        None => {
            return RequestStep::BadRequest;
        },
    };
    match cache.lookup(brand) {
        Some(e) => {
            if is_fresh(now, e.cached_at, lifetime) {
                return RequestStep::Serve { body: e.body.clone(), cached_at: e.cached_at };
            }
        },
        None => {},
    }
    RequestStep::Refresh { brand_id: brand, url: api_url_for(brand, limit) }
}

/// Serving from cache: a second request for a brand within the lifetime is
/// answered from the stored entry, byte for byte the stored body under the
/// first request's stamp — the decision is Serve, so nothing is fetched.
pub proof fn lemma_second_request_served_from_cache(
    cache: Map<u64, (Seq<char>, i64)>,
    brand: u64,
    body: Seq<char>,
    t1: i64,
    t2: i64,
    lifetime: u16,
)
    requires
        spec_is_fresh(t2 as int, t1 as int, lifetime as int),
    ensures
        spec_decision(cache.insert(brand, (body, t1)), brand, lifetime, t2 as int) == Some(
            (body, t1),
        ),
{
}

/// Refresh after expiry: once the lifetime has elapsed the decision for
/// the brand is a refresh — exactly one fetch per serving request — and
/// storing the rebuilt document leaves the cache holding the new body
/// under the newer stamp.
pub proof fn lemma_expired_entry_refreshed(
    cache: Map<u64, (Seq<char>, i64)>,
    brand: u64,
    body: Seq<char>,
    body2: Seq<char>,
    t1: i64,
    t2: i64,
    lifetime: u16,
)
    requires
        !spec_is_fresh(t2 as int, t1 as int, lifetime as int),
    ensures
        spec_decision(cache.insert(brand, (body, t1)), brand, lifetime, t2 as int) is None,
        cache.insert(brand, (body, t1)).insert(brand, (body2, t2))[brand] == (body2, t2),
{
}

} // verus!
