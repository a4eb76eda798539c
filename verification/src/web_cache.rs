//! The caches of the web tools: fetched pages and search results, each an
//! `lru::LruCache` of bounded size whose entries go stale after a while.
//! Time is handed in as nanoseconds since the Unix epoch.

use vstd::prelude::*;
use crate::web::{SearchResult, SearchResultView};

verus! {

/// What an entry holds: a fetched page's content, or a search's results.
#[derive(Debug, Clone)]
pub enum CachedValue {
    Page(String),
    Results(Vec<SearchResult>),
}

/// The plain form of a cached value.
pub enum CachedValueView {
    Page(Seq<char>),
    Results(Seq<SearchResultView>),
}

/// An entry: the value and when it was fetched (nanoseconds since the epoch).
#[derive(Debug, Clone)]
pub struct CacheEntry {
    pub value: CachedValue,
    pub fetched_at: u64,
}

/// The plain form of an entry.
pub open spec fn entry_view(e: CacheEntry) -> (CachedValueView, u64) {
    (
        match e.value {
            CachedValue::Page(p) => CachedValueView::Page(p@),
            CachedValue::Results(rs) => CachedValueView::Results(rs@.map_values(|r: SearchResult| r@)),
        },
        e.fetched_at,
    )
}

#[verifier::external_type_specification]
#[verifier::external_body]
pub struct ExLruHasher(lru::DefaultHasher);

#[verifier::external_type_specification]
#[verifier::external_body]
#[verifier::reject_recursive_types(K)]
#[verifier::reject_recursive_types(V)]
#[verifier::reject_recursive_types(S)]
pub struct ExLruCache<K, V, S>(lru::LruCache<K, V, S>);

/// What an `lru::LruCache` of entries holds, by key.
pub uninterp spec fn lru_contents(c: lru::LruCache<String, CacheEntry>) -> Map<Seq<char>, (CachedValueView, u64)>;

/// The capacity an `lru::LruCache` was made with.
pub uninterp spec fn lru_capacity(c: lru::LruCache<String, CacheEntry>) -> nat;

/// No entry at all.
pub open spec fn no_entries() -> Map<Seq<char>, (CachedValueView, u64)> {
    Map::empty()
}

/// What every cache holds: finitely many entries, no more than its capacity.
pub open spec fn lru_bounded(c: lru::LruCache<String, CacheEntry>) -> bool {
    lru_contents(c).dom().finite() && lru_contents(c).dom().len() <= lru_capacity(c)
}

/// `lru::LruCache::new`: an empty cache holding at most `cap` entries.
#[verifier::external_body]
fn lru_new(cap: usize) -> (r: lru::LruCache<String, CacheEntry>)
    requires
        cap > 0,
    ensures
        lru_contents(r) == no_entries(),
        lru_capacity(r) == cap,
{
    lru::LruCache::new(std::num::NonZeroUsize::new(cap).unwrap())
}

/// `lru::LruCache::get` (cloned): the entry under `k`; the entries stay
/// (only their recency changes).
#[verifier::external_body]
fn lru_get(c: &mut lru::LruCache<String, CacheEntry>, k: &str) -> (r: Option<CacheEntry>)
    ensures
        lru_contents(*final(c)) == lru_contents(*old(c)),
        lru_capacity(*final(c)) == lru_capacity(*old(c)),
        lru_bounded(*old(c)) ==> lru_bounded(*final(c)),
        match r {
            Some(e) => lru_contents(*old(c)).dom().contains(k@) && lru_contents(*old(c))[k@] == entry_view(e),
            None => !lru_contents(*old(c)).dom().contains(k@),
        },
{
    c.get(k).cloned()
}

/// `lru::LruCache::pop`: the entry under `k` leaves.
#[verifier::external_body]
fn lru_pop(c: &mut lru::LruCache<String, CacheEntry>, k: &str)
    ensures
        lru_contents(*final(c)) == lru_contents(*old(c)).remove(k@),
        lru_capacity(*final(c)) == lru_capacity(*old(c)),
        lru_bounded(*old(c)) ==> lru_bounded(*final(c)),
{
    c.pop(k);
}

/// `lru::LruCache::put`: `v` is held under `k`; when `k` was not there and
/// the cache was full, the least recently used entry leaves (which one is not
/// stated).
#[verifier::external_body]
fn lru_put(c: &mut lru::LruCache<String, CacheEntry>, k: String, v: CacheEntry)
    ensures
        lru_capacity(*final(c)) == lru_capacity(*old(c)),
        lru_bounded(*old(c)) ==> lru_bounded(*final(c)),
        lru_contents(*old(c)).dom().contains(k@) || lru_contents(*old(c)).dom().len() < lru_capacity(*old(c))
            ==> lru_contents(*final(c)) == lru_contents(*old(c)).insert(k@, entry_view(v)),
        !(lru_contents(*old(c)).dom().contains(k@) || lru_contents(*old(c)).dom().len() < lru_capacity(*old(c)))
            ==> exists|gone: Seq<char>|
            #![trigger lru_contents(*old(c)).remove(gone)]
            lru_contents(*old(c)).dom().contains(gone) && gone != k@ && lru_contents(*final(c)) == lru_contents(
                *old(c),
            ).remove(gone).insert(k@, entry_view(v)),
{
    c.put(k, v);
}

/// `lru::LruCache::len`: the number of entries.
#[verifier::external_body]
fn lru_len(c: &lru::LruCache<String, CacheEntry>) -> (r: usize)
    ensures
        r == lru_contents(*c).dom().len(),
{
    c.len()
}

/// `lru::LruCache::cap`: the capacity.
#[verifier::external_body]
fn lru_cap(c: &lru::LruCache<String, CacheEntry>) -> (r: usize)
    ensures
        r == lru_capacity(*c),
{
    c.cap().get()
}

/// `lru::LruCache::clear`: no entry is left.
#[verifier::external_body]
fn lru_clear(c: &mut lru::LruCache<String, CacheEntry>)
    ensures
        lru_contents(*final(c)) == no_entries(),
        lru_capacity(*final(c)) == lru_capacity(*old(c)),
{
    c.clear();
}

/// How long a fetched page stays fresh: 15 minutes.
pub const WEB_FETCH_CACHE_TTL_NANOS: u64 = 900_000_000_000;

/// How long search results stay fresh: 60 minutes.
pub const WEB_SEARCH_CACHE_TTL_NANOS: u64 = 3_600_000_000_000;

/// How many pages the fetch cache holds.
pub const WEB_FETCH_CACHE_CAPACITY: usize = 100;

/// How many searches the search cache holds.
pub const WEB_SEARCH_CACHE_CAPACITY: usize = 500;

/// Whether an entry fetched at `fetched_at` is still fresh at `now`: less
/// than `ttl` has passed (an entry from the future, as a clock set back
/// shows, is stale).
pub open spec fn fresh(fetched_at: u64, now: u64, ttl: u64) -> bool {
    fetched_at <= now && now - fetched_at < ttl
}

/// Whether an entry is still fresh (see `fresh`).
pub fn is_fresh(fetched_at: u64, now: u64, ttl: u64) -> (r: bool)
    ensures
        r == fresh(fetched_at, now, ttl),
{
    fetched_at <= now && now - fetched_at < ttl
}

/// The two caches the web tools share.
pub struct WebCache {
    pub pages: lru::LruCache<String, CacheEntry>,
    pub searches: lru::LruCache<String, CacheEntry>,
}

/// A page cache entry's content, when it is fresh.
pub open spec fn fresh_page(m: Map<Seq<char>, (CachedValueView, u64)>, k: Seq<char>, now: u64) -> Option<Seq<char>> {
    if m.dom().contains(k) && fresh(m[k].1, now, WEB_FETCH_CACHE_TTL_NANOS as u64) {
        match m[k].0 {
            CachedValueView::Page(p) => Some(p),
            _ => None,
        }
    } else {
        None
    }
}

/// A search cache entry's results and age in whole seconds, when it is fresh.
pub open spec fn fresh_results(m: Map<Seq<char>, (CachedValueView, u64)>, k: Seq<char>, now: u64) -> Option<(Seq<SearchResultView>, nat)> {
    if m.dom().contains(k) && fresh(m[k].1, now, WEB_SEARCH_CACHE_TTL_NANOS as u64) {
        match m[k].0 {
            CachedValueView::Results(rs) => Some((rs, ((now - m[k].1) / 1_000_000_000) as nat)),
            _ => None,
        }
    } else {
        None
    }
}

/// The entries after a lookup: a stale entry under `k` is dropped.
pub open spec fn after_lookup(m: Map<Seq<char>, (CachedValueView, u64)>, k: Seq<char>, now: u64, ttl: u64) -> Map<Seq<char>, (CachedValueView, u64)> {
    if m.dom().contains(k) && !fresh(m[k].1, now, ttl) {
        m.remove(k)
    } else {
        m
    }
}

impl WebCache {
    /// The fetched pages held, by URL.
    pub open spec fn pages(&self) -> Map<Seq<char>, (CachedValueView, u64)> {
        lru_contents(self.pages)
    }

    /// The search results held, by cache key.
    pub open spec fn searches(&self) -> Map<Seq<char>, (CachedValueView, u64)> {
        lru_contents(self.searches)
    }

    /// Neither cache holds more than its capacity: 100 pages, 500 searches.
    pub open spec fn wf(&self) -> bool {
        &&& lru_capacity(self.pages) == WEB_FETCH_CACHE_CAPACITY
        &&& lru_capacity(self.searches) == WEB_SEARCH_CACHE_CAPACITY
        &&& lru_bounded(self.pages)
        &&& lru_bounded(self.searches)
    }

    /// Empty caches with room for 100 pages and 500 searches.
    pub fn new() -> (r: Self)
        ensures
            r.wf(),
            r.pages() == no_entries(),
            r.searches() == no_entries(),
    {
        let r = WebCache { pages: lru_new(WEB_FETCH_CACHE_CAPACITY), searches: lru_new(WEB_SEARCH_CACHE_CAPACITY) };
        proof {
            assert(r.pages().dom() =~= Set::<Seq<char>>::empty());
            assert(r.searches().dom() =~= Set::<Seq<char>>::empty());
        }
        r
    }

    /// The content cached for `url`, when it is fresh at `now`; a stale entry
    /// is dropped.
    pub fn get_cached_content(&mut self, url: &str, now: u64) -> (r: Option<String>)
        ensures
            old(self).wf() ==> final(self).wf(),
            opt_text(r) == fresh_page(old(self).pages(), url@, now),
            final(self).pages() == after_lookup(old(self).pages(), url@, now, WEB_FETCH_CACHE_TTL_NANOS as u64),
            final(self).searches() == old(self).searches(),
    {
        match lru_get(&mut self.pages, url) {
            Some(e) => {
                if is_fresh(e.fetched_at, now, WEB_FETCH_CACHE_TTL_NANOS) {
                    match e.value {
                        CachedValue::Page(p) => Some(p),
                        CachedValue::Results(_) => None,
                    }
                } else {
                    lru_pop(&mut self.pages, url);
                    None
                }
            },
            None => None,
        }
    }

    /// Caches the content fetched from `url` at `now`.
    pub fn cache_content(&mut self, url: String, content: String, now: u64)
        ensures
            old(self).wf() ==> final(self).wf(),
            final(self).pages().dom().contains(url@),
            final(self).pages()[url@] == (CachedValueView::Page(content@), now),
            final(self).searches() == old(self).searches(),
            old(self).pages().dom().contains(url@) || old(self).pages().dom().len() < lru_capacity(old(self).pages)
                ==> final(self).pages() == old(self).pages().insert(url@, (CachedValueView::Page(content@), now)),
    {
        let ghost k = url@;
        let e = CacheEntry { value: CachedValue::Page(content), fetched_at: now };
        proof {
            assert(entry_view(e) == (CachedValueView::Page(content@), now));
        }
        lru_put(&mut self.pages, url, e);
    }

    /// The results cached under `key` and their age in whole seconds, when
    /// they are fresh at `now`; a stale entry is dropped.
    pub fn get_cached_search(&mut self, key: &str, now: u64) -> (r: Option<(Vec<SearchResult>, u64)>)
        ensures
            old(self).wf() ==> final(self).wf(),
            match r {
                Some((rs, age)) => fresh_results(old(self).searches(), key@, now) == Some(
                    (rs@.map_values(|x: SearchResult| x@), age as nat),
                ),
                None => fresh_results(old(self).searches(), key@, now) is None,
            },
            final(self).searches() == after_lookup(old(self).searches(), key@, now, WEB_SEARCH_CACHE_TTL_NANOS as u64),
            final(self).pages() == old(self).pages(),
    {
        match lru_get(&mut self.searches, key) {
            Some(e) => {
                if is_fresh(e.fetched_at, now, WEB_SEARCH_CACHE_TTL_NANOS) {
                    match e.value {
                        CachedValue::Results(rs) => Some((rs, (now - e.fetched_at) / 1_000_000_000)),
                        CachedValue::Page(_) => None,
                    }
                } else {
                    lru_pop(&mut self.searches, key);
                    None
                }
            },
            None => None,
        }
    }

    /// Caches the results of a search under `key` at `now`.
    pub fn cache_search(&mut self, key: String, results: Vec<SearchResult>, now: u64)
        ensures
            old(self).wf() ==> final(self).wf(),
            final(self).searches().dom().contains(key@),
            final(self).searches()[key@] == (CachedValueView::Results(results@.map_values(|x: SearchResult| x@)), now),
            final(self).pages() == old(self).pages(),
    {
        let ghost rv = results@.map_values(|x: SearchResult| x@);
        let e = CacheEntry { value: CachedValue::Results(results), fetched_at: now };
        proof {
            assert(entry_view(e) == (CachedValueView::Results(rv), now));
        }
        lru_put(&mut self.searches, key, e);
    }

    /// How full the caches are: (entries, capacity) of the page cache, then of
    /// the search cache.
    pub fn stats(&self) -> (r: ((usize, usize), (usize, usize)))
        ensures
            r.0.0 == self.pages().dom().len() && r.0.1 == lru_capacity(self.pages),
            r.1.0 == self.searches().dom().len() && r.1.1 == lru_capacity(self.searches),
    {
        ((lru_len(&self.pages), lru_cap(&self.pages)), (lru_len(&self.searches), lru_cap(&self.searches)))
    }

    /// Empties both caches.
    pub fn clear(&mut self)
        ensures
            old(self).wf() ==> final(self).wf(),
            final(self).pages() == no_entries(),
            final(self).searches() == no_entries(),
    {
        lru_clear(&mut self.pages);
        lru_clear(&mut self.searches);
        proof {
            assert(self.pages().dom() =~= Set::<Seq<char>>::empty());
            assert(self.searches().dom() =~= Set::<Seq<char>>::empty());
        }
    }
}

/// The text of an optional string.
pub open spec fn opt_text(o: Option<String>) -> Option<Seq<char>> {
    match o {
        Some(s) => Some(s@),
        None => None,
    }
}

} // verus!
