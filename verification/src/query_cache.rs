//! The cache of query results: entries live for a time to live, a full
//! cache drops its oldest quarter, and entries can be dropped by collection.
//! Times are milliseconds on a monotonic clock, supplied by the caller.

use vstd::prelude::*;
use crate::keyed::{StrMap, marked_keys};
use crate::hits::{QueryHit, copy_hits};
use crate::select::{choose_oldest, oldest_marked, count_where, lemma_count_where_ext, lemma_count_true};
use crate::text::{contains, concat, chars_of, contains_chars, str_equals};

verus! {

/// How the query cache behaves.
#[derive(Clone, Copy, Debug, PartialEq, Eq, Structural)]
pub struct CacheConfig {
    pub enabled: bool,
    pub max_entries: usize,
    pub default_ttl_seconds: u64,
    pub cleanup_interval_seconds: u64,
}

impl Default for CacheConfig {
    /// On, at most 1000 entries, five minutes to live, swept every minute.
    fn default() -> (r: Self)
        ensures
            r == (CacheConfig {
                enabled: true,
                max_entries: 1000,
                default_ttl_seconds: 300,
                cleanup_interval_seconds: 60,
            }),
    {
        CacheConfig { enabled: true, max_entries: 1000, default_ttl_seconds: 300, cleanup_interval_seconds: 60 }
    }
}

/// A cached result list.
#[derive(Debug)]
pub struct CachedQueryResult {
    pub collection: String,
    pub results: Vec<QueryHit>,
    pub created_at_ms: u64,
    pub ttl_ms: u64,
    pub hit_count: u32,
}

/// An entry has outlived its time to live at `now_ms` (time before its
/// creation counts as none).
pub open spec fn expired(e: CachedQueryResult, now_ms: u64) -> bool {
    now_ms.saturating_sub(e.created_at_ms) > e.ttl_ms
}

/// Counts of the cache. The hit rate is `total_hits` over all lookups.
#[derive(Clone, Copy, Debug, PartialEq, Eq, Structural)]
pub struct CacheStats {
    pub total_entries: usize,
    pub total_hits: u64,
    pub total_misses: u64,
    pub memory_usage_bytes: usize,
    pub oldest_entry_age_seconds: Option<u64>,
}

/// The largest age in whole seconds at `now_ms` among `vals`.
pub open spec fn oldest_age(vals: Seq<CachedQueryResult>, now_ms: u64) -> Option<u64>
    decreases vals.len(),
{
    if vals.len() == 0 {
        None
    } else {
        let a = now_ms.saturating_sub(vals.last().created_at_ms) / 1000;
        match oldest_age(vals.drop_last(), now_ms) {
            None => Some(a),
            Some(b) => Some(if a > b { a } else { b }),
        }
    }
}

/// Seconds as milliseconds, capped at the largest `u64` (a cap that no
/// elapsed time in milliseconds can exceed).
pub open spec fn seconds_to_ms(s: u64) -> u64 {
    if s * 1000 > u64::MAX {
        u64::MAX
    } else {
        (s * 1000) as u64
    }
}

/// A time to live given in seconds, in milliseconds.
pub fn ttl_ms_of(s: u64) -> (r: u64)
    ensures
        r == seconds_to_ms(s),
{
    if s > u64::MAX / 1000 {
        assert(s * 1000 > u64::MAX) by (nonlinear_arith)
            requires
                s > u64::MAX / 1000,
        ;
        u64::MAX
    } else {
        assert(s * 1000 <= u64::MAX) by (nonlinear_arith)
            requires
                s <= u64::MAX / 1000,
        ;
        s * 1000
    }
}

/// The entry that storing `results` at `now_ms` creates.
pub open spec fn new_entry(
    collection: String,
    results: Vec<QueryHit>,
    now_ms: u64,
    custom_ttl_ms: Option<u64>,
    cfg: CacheConfig,
) -> CachedQueryResult {
    CachedQueryResult {
        collection,
        results,
        created_at_ms: now_ms,
        ttl_ms: match custom_ttl_ms {
            Some(t) => t,
            None => seconds_to_ms(cfg.default_ttl_seconds),
        },
        hit_count: 0,
    }
}

/// The creation times of cached entries, in order.
pub open spec fn created_times(vals: Seq<CachedQueryResult>) -> Seq<u64> {
    vals.map_values(|e: CachedQueryResult| e.created_at_ms)
}

/// `after` is `c`'s entries without its `count` oldest (all of them if there
/// are fewer), ties broken either way.
pub open spec fn evicts_oldest(c: QueryCache, after: Map<Seq<char>, CachedQueryResult>, count: nat) -> bool {
    let n = c.entries.keys().len();
    let k = if count < n { count } else { n };
    exists|chosen: Seq<bool>|
        #![trigger marked_keys(c.entries.keys(), chosen)]
        oldest_marked(created_times(c.entries.values()), Seq::new(n, |i: int| true), chosen, k) && after
            == c.entries@.remove_keys(marked_keys(c.entries.keys(), chosen))
}

/// What storing `results` of collection `collection` under `key` at
/// `now_ms` leaves in the cache:
/// nothing changes when the cache is off; otherwise the new entry is put in
/// after a full cache has dropped its oldest quarter.
pub open spec fn put_outcome(
    before: QueryCache,
    after: Map<Seq<char>, CachedQueryResult>,
    key: Seq<char>,
    collection: String,
    results: Vec<QueryHit>,
    custom_ttl_ms: Option<u64>,
    now_ms: u64,
) -> bool {
    &&& !before.config.enabled ==> after == before.entries@
    &&& before.config.enabled ==> exists|mid: Map<Seq<char>, CachedQueryResult>|
        #![trigger mid.insert(key, new_entry(collection, results, now_ms, custom_ttl_ms, before.config))]
        (if before.entries.keys().len() >= before.config.max_entries {
            evicts_oldest(before, mid, (before.config.max_entries / 4) as nat)
        } else {
            mid == before.entries@
        }) && after == mid.insert(key, new_entry(collection, results, now_ms, custom_ttl_ms, before.config))
}

/// What is stored is found again, unexpired, until its time to live has
/// passed.
pub proof fn law_stored_results_are_found(
    before: QueryCache,
    after: Map<Seq<char>, CachedQueryResult>,
    key: Seq<char>,
    collection: String,
    results: Vec<QueryHit>,
    custom_ttl_ms: Option<u64>,
    now_ms: u64,
    later_ms: u64,
)
    requires
        before.config.enabled,
        put_outcome(before, after, key, collection, results, custom_ttl_ms, now_ms),
        later_ms.saturating_sub(now_ms) <= new_entry(collection, results, now_ms, custom_ttl_ms, before.config).ttl_ms,
    ensures
        after.contains_key(key),
        after[key].results == results,
        after[key].collection == collection,
        after[key].hit_count == 0,
        !expired(after[key], later_ms),
{
}

/// The entries of `c` left once those of collection `name` are dropped:
/// every entry stored for that collection goes, every other one stays.
pub open spec fn invalidation(c: QueryCache, name: Seq<char>) -> Map<Seq<char>, CachedQueryResult> {
    c.entries@.remove_keys(marked_keys(
        c.entries.keys(),
        Seq::new(c.entries.keys().len(), |i: int| c.entries.values()[i].collection@ == name),
    ))
}

/// Invalidating a collection leaves no cached query of that collection,
/// and every cached query of another collection stays as it was.
pub proof fn law_a_write_drops_the_collection(c: QueryCache, name: Seq<char>)
    requires
        c.wf(),
    ensures
        forall|k: Seq<char>| #[trigger] invalidation(c, name).contains_key(k) <==> (c.entries@.contains_key(k)
            && c.entries@[k].collection@ != name),
        forall|k: Seq<char>| #[trigger] invalidation(c, name).contains_key(k) ==> invalidation(c, name)[k]
            == c.entries@[k],
{
    c.entries.lemma_view();
    let n = c.entries.keys().len();
    let flags = Seq::new(n, |j: int| c.entries.values()[j].collection@ == name);
    let marked = marked_keys(c.entries.keys(), flags);
    assert forall|k: Seq<char>| marked.contains(k) <==> (c.entries@.contains_key(k) && c.entries@[k].collection@
        == name) by {
        if marked.contains(k) {
            let j = choose|j: int| 0 <= j < c.entries.keys().len() && 0 <= j < n && flags[j]
                && c.entries.keys()[j] == k;
            assert(c.entries.keys().contains(k));
            assert(c.entries@[c.entries.keys()[j]] == c.entries.values()[j]);
        }
        if c.entries@.contains_key(k) && c.entries@[k].collection@ == name {
            assert(c.entries.keys().contains(k));
            let j = choose|j: int| 0 <= j < c.entries.keys().len() && c.entries.keys()[j] == k;
            assert(c.entries@[c.entries.keys()[j]] == c.entries.values()[j]);
            assert(flags[j]);
        }
    }
}

/// The query result cache, keyed by a digest of the query.
pub struct QueryCache {
    pub entries: StrMap<CachedQueryResult>,
    pub config: CacheConfig,
    pub hit_count: u64,
    pub miss_count: u64,
}

impl QueryCache {
    /// Keys are distinct.
    pub open spec fn wf(&self) -> bool {
        self.entries.wf()
    }

    /// An empty cache with no lookups counted.
    pub fn new(config: CacheConfig) -> (r: Self)
        ensures
            r.wf(),
            r.entries@ == Map::<Seq<char>, CachedQueryResult>::empty(),
            r.config == config,
            r.hit_count == 0,
            r.miss_count == 0,
    {
        QueryCache { entries: StrMap::new(), config, hit_count: 0, miss_count: 0 }
    }

    /// Looks a query up at `now_ms`. When the cache is off nothing happens.
    /// A live entry is a hit: its results come back and hits are counted
    /// (the counts wrap, as the release build's do).
    /// An expired entry is dropped; it and a missing one count as a miss.
    pub fn get(&mut self, key: &str, now_ms: u64) -> (r: Option<Vec<QueryHit>>)
        requires
            old(self).wf(),
        ensures
            final(self).wf(),
            final(self).config == old(self).config,
            !old(self).config.enabled ==> r is None && final(self).entries@ == old(self).entries@
                && final(self).hit_count == old(self).hit_count && final(self).miss_count == old(self).miss_count,
            old(self).config.enabled && old(self).entries@.contains_key(key@) && !expired(
                old(self).entries@[key@],
                now_ms,
            ) ==> ({
                let e = old(self).entries@[key@];
                &&& r matches Some(v) && v@ == e.results@
                &&& final(self).entries@ == old(self).entries@.insert(
                    key@,
                    CachedQueryResult { hit_count: e.hit_count.wrapping_add(1), ..e },
                )
                &&& final(self).hit_count == old(self).hit_count.wrapping_add(1)
                &&& final(self).miss_count == old(self).miss_count
            }),
            old(self).config.enabled && !(old(self).entries@.contains_key(key@) && !expired(
                old(self).entries@[key@],
                now_ms,
            )) ==> r is None && final(self).entries@ == old(self).entries@.remove(key@) && final(self).hit_count
                == old(self).hit_count && final(self).miss_count == old(self).miss_count.wrapping_add(1),
    {
        if !self.config.enabled {
            return None;
        }
        proof { self.entries.lemma_view(); }
        match self.entries.position(key) {
            Some(i) => {
                let (_k, e) = self.entries.entry_at(i);
                let live = !(now_ms.saturating_sub(e.created_at_ms) > e.ttl_ms);
                if live {
                    let placeholder = CachedQueryResult {
                        collection: String::new(),
                        results: Vec::new(),
                        created_at_ms: 0,
                        ttl_ms: 0,
                        hit_count: 0,
                    };
                    let e = self.entries.replace_at(i, placeholder);
                    let results = copy_hits(&e.results);
                    let updated = CachedQueryResult {
                        collection: e.collection,
                        results: e.results,
                        created_at_ms: e.created_at_ms,
                        ttl_ms: e.ttl_ms,
                        hit_count: e.hit_count.wrapping_add(1),
                    };
                    let _ = self.entries.replace_at(i, updated);
                    self.hit_count = self.hit_count.wrapping_add(1);
                    return Some(results);
                } else {
                    let _ = self.entries.remove(key);
                }
            },
            None => {
                assert(old(self).entries@.remove(key@) =~= old(self).entries@);
            },
        }
        self.miss_count = self.miss_count.wrapping_add(1);
        None
    }
    /// Drops the `count` oldest entries (all of them if there are fewer).
    fn evict_oldest(&mut self, count: usize)
        requires
            old(self).wf(),
        ensures
            final(self).wf(),
            final(self).config == old(self).config,
            final(self).hit_count == old(self).hit_count,
            final(self).miss_count == old(self).miss_count,
            evicts_oldest(*old(self), final(self).entries@, count as nat),
    {
        let n = self.entries.len();
        proof { self.entries.lemma_view(); }
        let mut times: Vec<u64> = Vec::new();
        let mut eligible: Vec<bool> = Vec::new();
        let mut i: usize = 0;
        while i < n
            invariant
                self.wf(),
                n == self.entries.keys().len(),
                n == self.entries.values().len(),
                i <= n,
                times@ == created_times(self.entries.values()).take(i as int),
                eligible@ == Seq::new(i as nat, |j: int| true),
            decreases n - i,
        {
            let (_k, e) = self.entries.entry_at(i);
            times.push(e.created_at_ms);
            eligible.push(true);
            assert(times@ =~= created_times(self.entries.values()).take(i + 1));
            assert(eligible@ =~= Seq::new((i + 1) as nat, |j: int| true));
            i += 1;
        }
        assert(times@ =~= created_times(self.entries.values()));
        let k = if count < n { count } else { n };
        proof {
            lemma_count_where_ext(n as int, |j: int| eligible@[j], |j: int| true);
            lemma_count_true(n as int);
        }
        let chosen = choose_oldest(&times, &eligible, k);
        let ks = self.entries.keys_marked(&chosen);
        let ghost before = *self;
        self.entries.remove_all(&ks);
        assert(evicts_oldest(before, self.entries@, count as nat)) by {
            assert(oldest_marked(created_times(before.entries.values()), Seq::new(n as nat, |i: int| true), chosen@, k as nat));
            assert(self.entries@ == before.entries@.remove_keys(marked_keys(before.entries.keys(), chosen@)));
        }
    }

    /// Stores results under `key` at `now_ms`, living for `custom_ttl_ms` or
    /// else the configured time. A full cache first drops its oldest quarter.
    /// When the cache is off nothing happens.
    pub fn put(&mut self, key: String, collection: String, results: Vec<QueryHit>, custom_ttl_ms: Option<u64>, now_ms: u64)
        requires
            old(self).wf(),
        ensures
            final(self).wf(),
            final(self).config == old(self).config,
            final(self).hit_count == old(self).hit_count,
            final(self).miss_count == old(self).miss_count,
            put_outcome(*old(self), final(self).entries@, key@, collection, results, custom_ttl_ms, now_ms),
    {
        if !self.config.enabled {
            return;
        }
        let ghost before = *self;
        if self.entries.len() >= self.config.max_entries {
            self.evict_oldest(self.config.max_entries / 4);
        }
        let ghost mid = self.entries@;
        let ttl = match custom_ttl_ms {
            Some(t) => t,
            None => ttl_ms_of(self.config.default_ttl_seconds),
        };
        let ghost entry = new_entry(collection, results, now_ms, custom_ttl_ms, before.config);
        let ghost kk = key@;
        self.entries.insert(key, CachedQueryResult { collection, results, created_at_ms: now_ms, ttl_ms: ttl, hit_count: 0 });
        assert(self.entries@ == mid.insert(kk, entry));
    }

    /// Drops the entries stored for a collection; the others stay.
    pub fn invalidate_collection(&mut self, collection_name: &str)
        requires
            old(self).wf(),
        ensures
            final(self).wf(),
            final(self).config == old(self).config,
            final(self).hit_count == old(self).hit_count,
            final(self).miss_count == old(self).miss_count,
            final(self).entries@ == invalidation(*old(self), collection_name@),
            forall|k: Seq<char>| #[trigger] final(self).entries@.contains_key(k) <==> (old(self).entries@.contains_key(k)
                && old(self).entries@[k].collection@ != collection_name@),
            forall|k: Seq<char>| #[trigger] final(self).entries@.contains_key(k) ==> final(self).entries@[k] == old(
                self,
            ).entries@[k],
    {
        proof { self.entries.lemma_view(); }
        let ghost before = *self;
        let n = self.entries.len();
        let mut flags: Vec<bool> = Vec::new();
        let mut i: usize = 0;
        while i < n
            invariant
                self.wf(),
                *self == before,
                n == self.entries.keys().len(),
                n == self.entries.values().len(),
                i <= n,
                flags@ == Seq::new(i as nat, |j: int| self.entries.values()[j].collection@ == collection_name@),
            decreases n - i,
        {
            let (_k, e) = self.entries.entry_at(i);
            let hit = str_equals(e.collection.as_str(), collection_name);
            flags.push(hit);
            assert(flags@ =~= Seq::new((i + 1) as nat, |j: int| self.entries.values()[j].collection@ == collection_name@));
            i += 1;
        }
        let ks = self.entries.keys_marked(&flags);
        self.entries.remove_all(&ks);
        proof { law_a_write_drops_the_collection(before, collection_name@); }
    }

    /// Drops the entries that have expired at `now_ms`.
    pub fn cleanup_expired_entries(&mut self, now_ms: u64)
        requires
            old(self).wf(),
        ensures
            final(self).wf(),
            final(self).config == old(self).config,
            final(self).hit_count == old(self).hit_count,
            final(self).miss_count == old(self).miss_count,
            final(self).entries@ == old(self).entries@.remove_keys(marked_keys(
                old(self).entries.keys(),
                Seq::new(old(self).entries.keys().len(), |i: int| expired(old(self).entries.values()[i], now_ms)),
            )),
    {
        let n = self.entries.len();
        proof { self.entries.lemma_view(); }
        let mut flags: Vec<bool> = Vec::new();
        let mut i: usize = 0;
        while i < n
            invariant
                self.wf(),
                n == self.entries.keys().len(),
                n == self.entries.values().len(),
                i <= n,
                flags@ == Seq::new(i as nat, |j: int| expired(self.entries.values()[j], now_ms)),
            decreases n - i,
        {
            let (_k, e) = self.entries.entry_at(i);
            flags.push(now_ms.saturating_sub(e.created_at_ms) > e.ttl_ms);
            assert(flags@ =~= Seq::new((i + 1) as nat, |j: int| expired(self.entries.values()[j], now_ms)));
            i += 1;
        }
        let ks = self.entries.keys_marked(&flags);
        self.entries.remove_all(&ks);
    }

    /// Empties the cache and resets the counts.
    pub fn clear(&mut self)
        ensures
            final(self).wf(),
            final(self).entries@ == Map::<Seq<char>, CachedQueryResult>::empty(),
            final(self).config == old(self).config,
            final(self).hit_count == 0,
            final(self).miss_count == 0,
    {
        self.entries = StrMap::new();
        self.hit_count = 0;
        self.miss_count = 0;
    }

    /// The counts of the cache at `now_ms`; memory is reckoned at 1 KiB per
    /// entry.
    pub fn get_stats(&self, now_ms: u64) -> (r: CacheStats)
        requires
            self.wf(),
            self.entries.keys().len() * 1024 <= usize::MAX,
        ensures
            r.total_entries == self.entries.keys().len(),
            r.total_hits == self.hit_count,
            r.total_misses == self.miss_count,
            r.memory_usage_bytes == self.entries.keys().len() * 1024,
            r.oldest_entry_age_seconds == oldest_age(self.entries.values(), now_ms),
    {
        let n = self.entries.len();
        proof { self.entries.lemma_view(); }
        let mut oldest: Option<u64> = None;
        let mut i: usize = 0;
        while i < n
            invariant
                self.wf(),
                n == self.entries.keys().len(),
                n == self.entries.values().len(),
                i <= n,
                oldest == oldest_age(self.entries.values().take(i as int), now_ms),
            decreases n - i,
        {
            let (_k, e) = self.entries.entry_at(i);
            let a = now_ms.saturating_sub(e.created_at_ms) / 1000;
            assert(self.entries.values().take(i + 1).drop_last() =~= self.entries.values().take(i as int));
            oldest = match oldest {
                None => Some(a),
                Some(b) => Some(if a > b { a } else { b }),
            };
            i += 1;
        }
        assert(self.entries.values().take(n as int) =~= self.entries.values());
        CacheStats {
            total_entries: n,
            total_hits: self.hit_count,
            total_misses: self.miss_count,
            memory_usage_bytes: n * 1024,
            oldest_entry_age_seconds: oldest,
        }
    }
}

} // verus!
