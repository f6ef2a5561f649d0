//! The in-memory document store: named collections of documents, keyword
//! queries over them (cached), and the store's health counts.

use vstd::prelude::*;
use crate::keyed::{StrMap, text_set, texts};
use crate::hits::{Document, DocumentMetadata, QueryHit, copy_hits};
use crate::query_cache::{CacheConfig, CacheStats, CachedQueryResult, QueryCache, invalidation, put_outcome};
use crate::health::{ChromaHealthConfig, ChromaHealthMonitor, ChromaHealthStats};
use crate::select::count_where;
use crate::text::{
    chars_of, concat, contains, contains_chars, hex_digits, lowercase, owned, push_hex, split_words,
    str_equals, to_lowercase, words,
};
use crate::thread_pool::TaskPriority;
use crate::random::new_uuid;

verus! {

/// The 64-bit digest that std's `DefaultHasher` (as made by `new`, whose
/// keys are fixed) gives for a collection name, a query, a result count and
/// an optional filter text, hashed in that order.
pub uninterp spec fn query_digest(collection: Seq<char>, query: Seq<char>, n_results: usize, filter: Option<Seq<char>>) -> u64;

/// The view of an optional string slice.
pub open spec fn opt_str(s: Option<&str>) -> Option<Seq<char>> {
    match s {
        Some(t) => Some(t@),
        None => None,
    }
}

/// Hashes the parts of a query with `DefaultHasher::new` and returns
/// `finish`. The result is named, not described.
#[verifier::external_body]
fn digest_query(collection: &str, query: &str, n_results: usize, filter: Option<&str>) -> (r: u64)
    ensures
        r == query_digest(collection@, query@, n_results, opt_str(filter)),
{
    let mut h = std::collections::hash_map::DefaultHasher::new();
    std::hash::Hash::hash(collection, &mut h);
    std::hash::Hash::hash(query, &mut h);
    std::hash::Hash::hash(&n_results, &mut h);
    if let Some(f) = filter {
        std::hash::Hash::hash(f, &mut h);
    }
    std::hash::Hasher::finish(&h)
}

/// The cache key of a query: `query_` and the digest in lowercase hex.
pub open spec fn cache_key_of(collection: Seq<char>, query: Seq<char>, n_results: usize, filter: Option<Seq<char>>) -> Seq<char> {
    "query_"@ + hex_digits(query_digest(collection, query, n_results, filter) as nat)
}

/// The cache key of a query.
pub fn cache_key(collection: &str, query: &str, n_results: usize, filter: Option<&str>) -> (r: String)
    ensures
        r@ == cache_key_of(collection@, query@, n_results, opt_str(filter)),
{
    let d = digest_query(collection, query, n_results, filter);
    let mut s = owned("query_");
    push_hex(&mut s, d);
    s
}

/// A named collection of documents, keyed by document id.
pub struct InMemoryCollection {
    pub name: String,
    pub documents: StrMap<Document>,
}

/// How documents are embedded in batches.
#[derive(Debug)]
pub struct BatchConfig {
    pub max_batch_size: usize,
    pub batch_timeout_seconds: u64,
    pub max_concurrent_batches: usize,
    pub embedding_model: String,
}

impl BatchConfig {
    /// Batches of 32, five seconds, four at a time, with `nomic-embed-text`.
    pub fn new() -> (r: Self)
        ensures
            r.max_batch_size == 32,
            r.batch_timeout_seconds == 5,
            r.max_concurrent_batches == 4,
            r.embedding_model@ == "nomic-embed-text"@,
    {
        BatchConfig {
            max_batch_size: 32,
            batch_timeout_seconds: 5,
            max_concurrent_batches: 4,
            embedding_model: owned("nomic-embed-text"),
        }
    }
}

/// Texts to embed together, with the ids of their documents.
#[derive(Debug)]
pub struct EmbeddingBatch {
    pub texts: Vec<String>,
    pub document_ids: Vec<String>,
    pub collection_name: String,
    pub priority: TaskPriority,
}

/// A request to delete documents from a collection.
#[derive(Debug)]
pub struct DeleteDocumentsRequest {
    pub collection_name: String,
    pub ids: Vec<String>,
}

/// The store: collections by name, the query cache and the health monitor.
pub struct ChromaManager {
    pub collections: StrMap<InMemoryCollection>,
    pub query_cache: QueryCache,
    pub health_monitor: ChromaHealthMonitor,
}

/// The documents of collection `name` in `m`, as a map (none if absent).
pub open spec fn docs_map(m: Map<Seq<char>, InMemoryCollection>, name: Seq<char>) -> Map<Seq<char>, Document> {
    if m.contains_key(name) {
        m[name].documents@
    } else {
        Map::empty()
    }
}

/// The documents of collection `name` in `m`, in store order (none if
/// absent).
pub open spec fn docs_seq(m: Map<Seq<char>, InMemoryCollection>, name: Seq<char>) -> Seq<Document> {
    if m.contains_key(name) {
        m[name].documents.values()
    } else {
        Seq::empty()
    }
}

/// `after` is `before` with collection `name` present: unchanged if it was,
/// else with a new empty collection of that name.
pub open spec fn with_collection(
    before: Map<Seq<char>, InMemoryCollection>,
    after: Map<Seq<char>, InMemoryCollection>,
    name: Seq<char>,
) -> bool {
    &&& after.contains_key(name)
    &&& before.contains_key(name) ==> after == before
    &&& !before.contains_key(name) ==> after == before.insert(name, after[name]) && after[name].name@ == name
        && after[name].documents@ == Map::<Seq<char>, Document>::empty()
        && after[name].documents.values() == Seq::<Document>::empty()
}

/// The keywords of a query: the white-space separated words of its
/// lowercase form.
pub open spec fn keywords_of(query: Seq<char>) -> Seq<Seq<char>> {
    words(lowercase(query))
}

/// How many of the keywords (counted with repeats) occur in the lowercase
/// form of `content`.
pub open spec fn match_count(content: Seq<char>, kw: Seq<Seq<char>>) -> nat {
    count_where(kw.len() as int, |i: int| contains(lowercase(content), kw[i]))
}

/// What a query returns for document `d`.
pub open spec fn hit_for(d: Document, kw: Seq<Seq<char>>) -> QueryHit {
    QueryHit {
        document: d.content,
        metadata: d.metadata,
        matches: match_count(d.content@, kw) as usize,
        keyword_count: kw.len() as usize,
        id: d.id,
    }
}

/// The documents of `docs` that contain exactly `m` keywords, in order.
pub open spec fn bucket(docs: Seq<Document>, kw: Seq<Seq<char>>, m: nat) -> Seq<Document>
    decreases docs.len(),
{
    if docs.len() == 0 {
        seq![]
    } else {
        let b = bucket(docs.drop_last(), kw, m);
        if match_count(docs.last().content@, kw) == m {
            b.push(docs.last())
        } else {
            b
        }
    }
}

/// The documents that contain more than `m` and at most `top` keywords:
/// most matches first, and in store order among equals.
pub open spec fn ranked_above(docs: Seq<Document>, kw: Seq<Seq<char>>, top: nat, m: nat) -> Seq<Document>
    decreases top - m,
{
    if m >= top {
        seq![]
    } else {
        ranked_above(docs, kw, top, m + 1) + bucket(docs, kw, m + 1)
    }
}

/// The hits for a sequence of documents.
pub open spec fn hits_of(docs: Seq<Document>, kw: Seq<Seq<char>>) -> Seq<QueryHit> {
    docs.map_values(|d: Document| hit_for(d, kw))
}

/// What a keyword query over `docs` returns: every document that contains
/// at least one keyword, most matches first and in store order among
/// equals, at most `n`.
pub open spec fn query_results(docs: Seq<Document>, query: Seq<char>, n: usize) -> Seq<QueryHit> {
    let kw = keywords_of(query);
    let all = hits_of(ranked_above(docs, kw, kw.len(), 0), kw);
    if n < all.len() {
        all.take(n as int)
    } else {
        all
    }
}

/// The documents `m` holds after storing, in order, the first `k` of the
/// given ids, texts and metadata (a repeated id keeps the last).
pub open spec fn with_documents(
    m: Map<Seq<char>, Document>,
    ids: Seq<String>,
    contents: Seq<String>,
    metas: Seq<DocumentMetadata>,
    k: nat,
    embedded: bool,
) -> Map<Seq<char>, Document>
    decreases k,
{
    if k == 0 {
        m
    } else {
        with_documents(m, ids, contents, metas, (k - 1) as nat, embedded).insert(
            ids[k - 1]@,
            Document { id: ids[k - 1], content: contents[k - 1], metadata: metas[k - 1], has_embedding: embedded },
        )
    }
}

/// The documents `m` holds after updating, in order, the first `k` of the
/// given ids that are present: new text and metadata, the same id, no
/// embedding. Absent ids are passed over.
pub open spec fn with_updates(
    m: Map<Seq<char>, Document>,
    ids: Seq<String>,
    contents: Seq<String>,
    metas: Seq<DocumentMetadata>,
    k: nat,
) -> Map<Seq<char>, Document>
    decreases k,
{
    if k == 0 {
        m
    } else {
        let p = with_updates(m, ids, contents, metas, (k - 1) as nat);
        if p.contains_key(ids[k - 1]@) {
            p.insert(
                ids[k - 1]@,
                Document {
                    id: p[ids[k - 1]@].id,
                    content: contents[k - 1],
                    metadata: metas[k - 1],
                    has_embedding: false,
                },
            )
        } else {
            p
        }
    }
}

/// The smallest of three counts.
pub open spec fn min3(a: nat, b: nat, c: nat) -> nat {
    if a <= b && a <= c {
        a
    } else if b <= c {
        b
    } else {
        c
    }
}

/// `after` differs from `before` only in collection `name`, which now
/// holds `docs`.
pub open spec fn stored(
    before: Map<Seq<char>, InMemoryCollection>,
    after: Map<Seq<char>, InMemoryCollection>,
    name: Seq<char>,
    docs: Map<Seq<char>, Document>,
) -> bool {
    &&& after.contains_key(name)
    &&& after.remove(name) == before.remove(name)
    &&& after[name].documents@ == docs
}

/// A generated document id: `doc_` and a random UUID.
pub open spec fn generated_id(id: Seq<char>) -> bool {
    crate::text::starts_with(id, "doc_"@)
}

/// The ids used when storing `n` documents: the given ones, or generated
/// ones, one per document.
pub open spec fn ids_used(given: Option<Vec<String>>, n: nat, used: Seq<String>) -> bool {
    match given {
        Some(v) => used == v@,
        None => used.len() == n && forall|i: int| 0 <= i < n ==> generated_id(#[trigger] used[i]@),
    }
}

/// The positions of `keys` a listing shows: those whose key is wanted (all
/// when no ids are given), in order.
pub open spec fn listed_positions(keys: Seq<Seq<char>>, wanted: Option<Seq<Seq<char>>>) -> Seq<int>
    decreases keys.len(),
{
    if keys.len() == 0 {
        seq![]
    } else {
        let p = listed_positions(keys.drop_last(), wanted);
        let ok = match wanted {
            Some(w) => w.contains(keys.last()),
            None => true,
        };
        if ok {
            p.push(keys.len() - 1)
        } else {
            p
        }
    }
}

/// The number of documents in all the collections.
pub open spec fn total_docs(cs: Seq<InMemoryCollection>) -> int
    decreases cs.len(),
{
    if cs.len() == 0 {
        0
    } else {
        total_docs(cs.drop_last()) + cs.last().documents.keys().len()
    }
}

/// A fresh document id: `doc_` and a random UUID.
pub fn fresh_document_id() -> (r: String)
    ensures
        generated_id(r@),
{
    let u = new_uuid();
    let r = concat("doc_", u.as_str());
    proof {
        reveal_strlit("doc_");
        assert(r@.subrange(0, 4) =~= "doc_"@);
    }
    r
}

/// The given ids, or a generated one per document.
pub fn prepare_ids(ids: Option<Vec<String>>, n: usize) -> (r: Vec<String>)
    ensures
        ids_used(ids, n as nat, r@),
{
    match ids {
        Some(v) => v,
        None => {
            let mut r: Vec<String> = Vec::new();
            let mut i: usize = 0;
            while i < n
                invariant
                    i <= n,
                    r@.len() == i,
                    forall|j: int| 0 <= j < i ==> generated_id(#[trigger] r@[j]@),
                decreases n - i,
            {
                r.push(fresh_document_id());
                i += 1;
            }
            r
        },
    }
}

/// The ranges `[start, end)` that cut `n` items into batches of
/// `batch_size` (the last one shorter).
pub fn batch_ranges(n: usize, batch_size: usize) -> (r: Vec<(usize, usize)>)
    requires
        batch_size > 0,
    ensures
        forall|j: int| 0 <= j < r@.len() ==> (#[trigger] r@[j]).0 == j * batch_size && r@[j].1 == if (j + 1)
            * batch_size < n {
            (j + 1) * batch_size
        } else {
            n as int
        },
        r@.len() * batch_size >= n,
        r@.len() == 0 || (r@.len() - 1) * batch_size < n,
{
    let mut r: Vec<(usize, usize)> = Vec::new();
    let mut start: usize = 0;
    while start < n
        invariant
            batch_size > 0,
            start == r@.len() * batch_size,
            start <= n || (r@.len() > 0 && (r@.len() - 1) * batch_size < n),
            r@.len() == 0 || (r@.len() - 1) * batch_size < n,
            forall|j: int| 0 <= j < r@.len() ==> (#[trigger] r@[j]).0 == j * batch_size && r@[j].1 == if (j + 1)
                * batch_size < n {
                (j + 1) * batch_size
            } else {
                n as int
            },
        decreases n - start,
    {
        let end = if batch_size < n - start { start + batch_size } else { n };
        proof {
            assert((r@.len() + 1) * batch_size == start + batch_size) by (nonlinear_arith)
                requires
                    start == r@.len() * batch_size,
            ;
        }
        r.push((start, end));
        if end == n {
            proof {
                assert(r@.len() * batch_size >= n) by (nonlinear_arith)
                    requires
                        r@.len() * batch_size == start + batch_size,
                        n - start <= batch_size,
                ;
            }
            return r;
        }
        start = end;
    }
    r
}

/// The texts of a list of character vectors.
pub open spec fn kw_view(kw: Seq<Vec<char>>) -> Seq<Seq<char>> {
    kw.map_values(|v: Vec<char>| v@)
}

/// The keywords of a query.
fn keywords(query: &str) -> (kw: Vec<Vec<char>>)
    ensures
        kw_view(kw@) == keywords_of(query@),
{
    let lower = to_lowercase(query);
    let cs = chars_of(lower.as_str());
    let kw = split_words(cs.as_slice());
    assert(kw_view(kw@) =~= keywords_of(query@));
    kw
}

/// How many keywords occur in `content`.
fn count_matches(content: &str, kw: &Vec<Vec<char>>) -> (r: usize)
    ensures
        r == match_count(content@, kw_view(kw@)),
{
    let lower = to_lowercase(content);
    let lc = chars_of(lower.as_str());
    let ghost kv = kw_view(kw@);
    let mut n: usize = 0;
    let mut i: usize = 0;
    while i < kw.len()
        invariant
            i <= kw@.len(),
            kv == kw_view(kw@),
            lc@ == lowercase(content@),
            n == count_where(i as int, |j: int| contains(lowercase(content@), kv[j])),
            n <= i,
        decreases kw@.len() - i,
    {
        if contains_chars(lc.as_slice(), kw[i].as_slice()) {
            n += 1;
        }
        i += 1;
    }
    n
}

/// What a query does: answered from a live cache entry for the same query
/// (which counts a hit), or else run on the collection (which counts a miss
/// and stores the results, as `QueryCache::put` does, after the stale entry
/// is dropped).
pub open spec fn query_outcome(
    before: ChromaManager,
    after: ChromaManager,
    collection: Seq<char>,
    query: Seq<char>,
    n: usize,
    filter: Option<Seq<char>>,
    now_ms: u64,
    r: Result<Vec<QueryHit>, String>,
) -> bool {
    let key = cache_key_of(collection, query, n, filter);
    let c = before.query_cache;
    let q = after.query_cache;
    if c.config.enabled && c.entries@.contains_key(key) && !crate::query_cache::expired(c.entries@[key], now_ms) {
        let e = c.entries@[key];
        &&& r matches Ok(v) && v@ == e.results@
        &&& after.collections@ == before.collections@
        &&& q.config == c.config
        &&& q.entries@ == c.entries@.insert(key, CachedQueryResult { hit_count: e.hit_count.wrapping_add(1), ..e })
        &&& q.hit_count == c.hit_count.wrapping_add(1)
        &&& q.miss_count == c.miss_count
    } else {
        &&& r matches Ok(v)
        &&& v@ == query_results(docs_seq(before.collections@, collection), query, n)
        &&& with_collection(before.collections@, after.collections@, collection)
        &&& q.config == c.config
        &&& q.hit_count == c.hit_count
        &&& q.miss_count == if c.config.enabled { c.miss_count.wrapping_add(1) } else { c.miss_count }
        &&& exists|mid: QueryCache, name: String, stored: Vec<QueryHit>|
            #![trigger put_outcome(mid, q.entries@, key, name, stored, None::<u64>, now_ms)]
            mid.config == c.config && mid.entries@ == (if c.config.enabled {
                c.entries@.remove(key)
            } else {
                c.entries@
            }) && stored@ == v@ && name@ == collection && put_outcome(mid, q.entries@, key, name, stored, None::<u64>, now_ms)
    }
}

impl ChromaManager {
    /// The collection map and every collection's document map have
    /// distinct keys.
    pub open spec fn wf(&self) -> bool {
        &&& self.collections.wf()
        &&& forall|k: Seq<char>| #[trigger] self.collections@.contains_key(k) ==> self.collections@[k].documents.wf()
        &&& self.query_cache.wf()
    }

    /// An empty store with the given cache and health settings. The path is
    /// not used: the store lives in memory.
    pub fn new_with_configs(_db_path: &str, cache_config: CacheConfig, health_config: ChromaHealthConfig) -> (r: Result<Self, String>)
        ensures
            r matches Ok(m) && m.wf() && m.collections@ == Map::<Seq<char>, InMemoryCollection>::empty()
                && m.query_cache.config == cache_config && m.query_cache.entries@ == Map::<
                Seq<char>,
                crate::query_cache::CachedQueryResult,
            >::empty() && m.query_cache.hit_count == 0 && m.query_cache.miss_count == 0
                && m.health_monitor.config == health_config && !m.health_monitor.is_monitoring
                && m.collections.keys() == Seq::<Seq<char>>::empty() && m.health_monitor.stats == (ChromaHealthStats {
                    is_healthy: true,
                    last_check_time: None,
                    last_successful_operation: None,
                    consecutive_failures: 0,
                    total_operations: 0,
                    total_failures: 0,
                    total_operation_time_ms: 0,
                    total_collections: 0,
                    total_documents: 0,
                    memory_usage_estimate_bytes: 0,
                }),
    {
        Ok(ChromaManager {
            collections: StrMap::new(),
            query_cache: QueryCache::new(cache_config),
            health_monitor: ChromaHealthMonitor::new(health_config),
        })
    }

    /// An empty store with the default settings.
    pub fn new(db_path: &str) -> (r: Result<Self, String>)
        ensures
            r matches Ok(m) && m.wf() && m.collections@ == Map::<Seq<char>, InMemoryCollection>::empty()
                && m.collections.keys() == Seq::<Seq<char>>::empty()
                && m.query_cache.entries@ == Map::<Seq<char>, crate::query_cache::CachedQueryResult>::empty()
                && m.query_cache.hit_count == 0 && m.query_cache.miss_count == 0
                && m.health_monitor.stats == (ChromaHealthStats {
                    is_healthy: true,
                    last_check_time: None,
                    last_successful_operation: None,
                    consecutive_failures: 0,
                    total_operations: 0,
                    total_failures: 0,
                    total_operation_time_ms: 0,
                    total_collections: 0,
                    total_documents: 0,
                    memory_usage_estimate_bytes: 0,
                }) && !m.health_monitor.is_monitoring
                && m.query_cache.config == (CacheConfig { enabled: true, max_entries: 1000, default_ttl_seconds: 300, cleanup_interval_seconds: 60 }) && m.health_monitor.config
                == (ChromaHealthConfig {
                check_interval_seconds: 30,
                timeout_seconds: 5,
                max_retry_attempts: 3,
                retry_backoff_seconds: 1,
                auto_recovery: true,
                operation_timeout_seconds: 30,
            }),
    {
        Self::new_with_configs(db_path, CacheConfig::default(), ChromaHealthConfig::default())
    }

    /// An empty store with the given cache settings.
    pub fn new_with_cache_config(db_path: &str, cache_config: CacheConfig) -> (r: Result<Self, String>)
        ensures
            r matches Ok(m) && m.wf() && m.collections@ == Map::<Seq<char>, InMemoryCollection>::empty()
                && m.query_cache.config == cache_config && m.health_monitor.config == (ChromaHealthConfig {
                check_interval_seconds: 30,
                timeout_seconds: 5,
                max_retry_attempts: 3,
                retry_backoff_seconds: 1,
                auto_recovery: true,
                operation_timeout_seconds: 30,
            }),
    {
        Self::new_with_configs(db_path, cache_config, ChromaHealthConfig::default())
    }

    /// Makes sure a collection of that name exists (a new one is empty) and
    /// returns its position.
    pub fn get_or_create_collection(&mut self, name: &str) -> (r: usize)
        requires
            old(self).wf(),
        ensures
            final(self).wf(),
            with_collection(old(self).collections@, final(self).collections@, name@),
            r < final(self).collections.keys().len(),
            final(self).collections.keys()[r as int] == name@,
            final(self).query_cache == old(self).query_cache,
            final(self).health_monitor == old(self).health_monitor,
    {
        proof { self.collections.lemma_view(); }
        match self.collections.position(name) {
            Some(i) => i,
            None => {
                let c = InMemoryCollection { name: owned(name), documents: StrMap::new() };
                let ghost cv = c;
                self.collections.insert(owned(name), c);
                proof {
                    self.collections.lemma_view();
                    assert(self.collections.keys()[self.collections.keys().len() - 1] == name@);
                    assert(self.collections@[name@] == cv);
                    assert forall|k: Seq<char>| #[trigger] self.collections@.contains_key(k) implies self.collections@[k].documents.wf() by {
                        if k != name@ {
                            assert(old(self).collections@.contains_key(k));
                        }
                    }
                }
                self.collections.len() - 1
            },
        }
    }

    /// The names of the collections, in the order they were made.
    pub fn list_collections(&self) -> (r: Result<Vec<String>, String>)
        requires
            self.wf(),
        ensures
            r matches Ok(v) && texts(v@) == self.collections.keys(),
    {
        let n = self.collections.len();
        let mut v: Vec<String> = Vec::new();
        let mut i: usize = 0;
        while i < n
            invariant
                self.wf(),
                n == self.collections.keys().len(),
                i <= n,
                v@.len() == i,
                texts(v@) == self.collections.keys().take(i as int),
            decreases n - i,
        {
            let (k, _c) = self.collections.entry_at(i);
            let ghost prev = v@;
            v.push(k.clone());
            assert(v@ == prev.push(v@[i as int]));
            assert(texts(v@) =~= texts(prev).push(k@));
            assert(texts(v@) =~= self.collections.keys().take(i + 1));
            i += 1;
        }
        assert(self.collections.keys().take(n as int) =~= self.collections.keys());
        Ok(v)
    }

    /// Runs a keyword query over a collection (made if missing), without the
    /// cache.
    fn perform_query(&mut self, collection_name: &str, query_text: &str, n_results: usize) -> (r: Vec<QueryHit>)
        requires
            old(self).wf(),
        ensures
            final(self).wf(),
            with_collection(old(self).collections@, final(self).collections@, collection_name@),
            final(self).query_cache == old(self).query_cache,
            final(self).health_monitor == old(self).health_monitor,
            r@ == query_results(docs_seq(old(self).collections@, collection_name@), query_text@, n_results),
    {
        let idx = self.get_or_create_collection(collection_name);
        proof { self.collections.lemma_view(); }
        let kw = keywords(query_text);
        let ghost kv = kw_view(kw@);
        let (_name, coll) = self.collections.entry_at(idx);
        let ghost docs = coll.documents.values();
        assert(docs == docs_seq(old(self).collections@, collection_name@));
        proof { coll.documents.lemma_view(); }
        let nd = coll.documents.len();
        let mut counts: Vec<usize> = Vec::new();
        let mut i: usize = 0;
        while i < nd
            invariant
                coll.documents.wf(),
                docs == coll.documents.values(),
                nd == docs.len(),
                nd == coll.documents.keys().len(),
                kv == kw_view(kw@),
                i <= nd,
                counts@.len() == i,
                forall|j: int| 0 <= j < i ==> #[trigger] counts@[j] == match_count(docs[j].content@, kv),
            decreases nd - i,
        {
            let (_k, d) = coll.documents.entry_at(i);
            counts.push(count_matches(d.content.as_str(), &kw));
            i += 1;
        }
        let mut out: Vec<QueryHit> = Vec::new();
        let top = kw.len();
        let mut m: usize = top;
        while m > 0
            invariant
                coll.documents.wf(),
                docs == coll.documents.values(),
                nd == docs.len(),
                nd == coll.documents.keys().len(),
                kv == kw_view(kw@),
                top == kv.len(),
                m <= top,
                counts@.len() == nd,
                forall|j: int| 0 <= j < nd ==> #[trigger] counts@[j] == match_count(docs[j].content@, kv),
                out@ == hits_of(ranked_above(docs, kv, top as nat, m as nat), kv),
            decreases m,
        {
            let ghost start = out@;
            let mut j: usize = 0;
            while j < nd
                invariant
                    coll.documents.wf(),
                    docs == coll.documents.values(),
                    nd == docs.len(),
                    nd == coll.documents.keys().len(),
                    kv == kw_view(kw@),
                    top == kv.len(),
                    0 < m <= top,
                    counts@.len() == nd,
                    forall|q: int| 0 <= q < nd ==> #[trigger] counts@[q] == match_count(docs[q].content@, kv),
                    start == hits_of(ranked_above(docs, kv, top as nat, m as nat), kv),
                    j <= nd,
                    out@ == start + hits_of(bucket(docs.take(j as int), kv, m as nat), kv),
                decreases nd - j,
            {
                let ghost prev = out@;
                assert(docs.take(j + 1).drop_last() =~= docs.take(j as int));
                assert(docs.take(j + 1).last() == docs[j as int]);
                if counts[j] == m {
                    let (_k, d) = coll.documents.entry_at(j);
                    let h = QueryHit {
                        document: d.content.clone(),
                        metadata: d.metadata.duplicate(),
                        matches: counts[j],
                        keyword_count: top,
                        id: d.id.clone(),
                    };
                    assert(h == hit_for(docs[j as int], kv));
                    out.push(h);
                    assert(hits_of(bucket(docs.take(j + 1), kv, m as nat), kv) =~= hits_of(
                        bucket(docs.take(j as int), kv, m as nat),
                        kv,
                    ).push(h));
                    assert(out@ =~= start + hits_of(bucket(docs.take(j + 1), kv, m as nat), kv));
                } else {
                    assert(bucket(docs.take(j + 1), kv, m as nat) == bucket(docs.take(j as int), kv, m as nat));
                }
                j += 1;
            }
            assert(docs.take(nd as int) =~= docs);
            assert(hits_of(ranked_above(docs, kv, top as nat, (m - 1) as nat), kv) =~= hits_of(
                ranked_above(docs, kv, top as nat, m as nat),
                kv,
            ) + hits_of(bucket(docs, kv, m as nat), kv));
            m -= 1;
        }
        if n_results < out.len() {
            out.truncate(n_results);
        }
        out
    }
}

impl ChromaManager {
    /// Takes the collection at position `idx` out, leaving an empty one in
    /// its place.
    fn take_collection(&mut self, idx: usize) -> (r: InMemoryCollection)
        requires
            old(self).wf(),
            idx < old(self).collections.keys().len(),
        ensures
            final(self).wf(),
            r == old(self).collections@[old(self).collections.keys()[idx as int]],
            r.documents.wf(),
            final(self).collections.keys() == old(self).collections.keys(),
            final(self).collections@.remove(old(self).collections.keys()[idx as int]) == old(
                self,
            ).collections@.remove(old(self).collections.keys()[idx as int]),
            final(self).collections@.contains_key(old(self).collections.keys()[idx as int]),
            final(self).query_cache == old(self).query_cache,
            final(self).health_monitor == old(self).health_monitor,
    {
        proof { self.collections.lemma_view(); }
        let placeholder = InMemoryCollection { name: String::new(), documents: StrMap::new() };
        let r = self.collections.replace_at(idx, placeholder);
        proof {
            let k = old(self).collections.keys()[idx as int];
            assert(old(self).collections@.contains_key(k));
            assert forall|q: Seq<char>| #[trigger] self.collections@.contains_key(q) implies self.collections@[q].documents.wf() by {
                if q != k {
                    assert(old(self).collections@.contains_key(q));
                }
            }
            assert(self.collections@.remove(k) =~= old(self).collections@.remove(k));
        }
        r
    }

    /// Puts a collection back at position `idx`.
    fn put_collection(&mut self, idx: usize, c: InMemoryCollection)
        requires
            old(self).wf(),
            idx < old(self).collections.keys().len(),
            c.documents.wf(),
        ensures
            final(self).wf(),
            final(self).collections@ == old(self).collections@.insert(old(self).collections.keys()[idx as int], c),
            final(self).collections.keys() == old(self).collections.keys(),
            final(self).query_cache == old(self).query_cache,
            final(self).health_monitor == old(self).health_monitor,
    {
        proof { self.collections.lemma_view(); }
        let _ = self.collections.replace_at(idx, c);
        proof {
            let k = old(self).collections.keys()[idx as int];
            assert forall|q: Seq<char>| #[trigger] self.collections@.contains_key(q) implies self.collections@[q].documents.wf() by {
                if q != k {
                    assert(old(self).collections@.contains_key(q));
                }
            }
        }
    }

    /// Stores the first `k` of the given documents in collection `name`
    /// (made if missing), without touching the cache.
    fn store_documents(
        &mut self,
        name: &str,
        ids: &Vec<String>,
        contents: &Vec<String>,
        metas: &Vec<DocumentMetadata>,
        k: usize,
        embedded: bool,
    )
        requires
            old(self).wf(),
            k <= ids@.len(),
            k <= contents@.len(),
            k <= metas@.len(),
        ensures
            final(self).wf(),
            stored(
                old(self).collections@,
                final(self).collections@,
                name@,
                with_documents(docs_map(old(self).collections@, name@), ids@, contents@, metas@, k as nat, embedded),
            ),
            final(self).query_cache == old(self).query_cache,
            final(self).health_monitor == old(self).health_monitor,
    {
        let idx = self.get_or_create_collection(name);
        let ghost mid = self.collections@;
        assert(mid.remove(name@) =~= old(self).collections@.remove(name@));
        let mut coll = self.take_collection(idx);
        let ghost mid2 = self.collections@;
        assert(coll.documents@ == docs_map(old(self).collections@, name@));
        let mut i: usize = 0;
        while i < k
            invariant
                k <= ids@.len(),
                k <= contents@.len(),
                k <= metas@.len(),
                i <= k,
                coll.documents.wf(),
                coll.documents@ == with_documents(docs_map(old(self).collections@, name@), ids@, contents@, metas@, i as nat, embedded),
            decreases k - i,
        {
            let d = Document {
                id: ids[i].clone(),
                content: contents[i].clone(),
                metadata: metas[i].duplicate(),
                has_embedding: embedded,
            };
            coll.documents.insert(ids[i].clone(), d);
            i += 1;
        }
        self.put_collection(idx, coll);
        proof {
            assert(self.collections@.remove(name@) =~= mid2.remove(name@));
        }
    }

    /// Adds documents to a collection (made if missing), under the given
    /// ids or generated ones; documents, metadata and ids are paired in
    /// order, as many as the shortest list has. The collection's cached
    /// queries are dropped.
    pub fn add_documents(
        &mut self,
        collection_name: &str,
        documents: Vec<String>,
        metadatas: Vec<DocumentMetadata>,
        ids: Option<Vec<String>>,
    ) -> (r: Result<(), String>)
        requires
            old(self).wf(),
        ensures
            final(self).wf(),
            r is Ok,
            exists|used: Seq<String>|
                #![trigger ids_used(ids, documents@.len(), used)]
                ids_used(ids, documents@.len(), used) && stored(
                    old(self).collections@,
                    final(self).collections@,
                    collection_name@,
                    with_documents(
                        docs_map(old(self).collections@, collection_name@),
                        used,
                        documents@,
                        metadatas@,
                        min3(used.len(), documents@.len(), metadatas@.len()),
                        false,
                    ),
                ),
            final(self).query_cache.entries@ == invalidation(old(self).query_cache, collection_name@),
            final(self).query_cache.config == old(self).query_cache.config,
            final(self).query_cache.hit_count == old(self).query_cache.hit_count,
            final(self).query_cache.miss_count == old(self).query_cache.miss_count,
            final(self).health_monitor == old(self).health_monitor,
    {
        let used = prepare_ids(ids, documents.len());
        let k = if used.len() <= documents.len() && used.len() <= metadatas.len() {
            used.len()
        } else if documents.len() <= metadatas.len() {
            documents.len()
        } else {
            metadatas.len()
        };
        self.store_documents(collection_name, &used, &documents, &metadatas, k, false);
        self.query_cache.invalidate_collection(collection_name);
        assert(ids_used(ids, documents@.len(), used@));
        Ok(())
    }

    /// Adds documents whose embeddings were computed: the first
    /// `embedded_count` of them (paired in order with ids and metadata, as
    /// many as the shortest list has) are stored as embedded. The
    /// collection's cached queries are dropped.
    pub fn add_embedded_documents(
        &mut self,
        collection_name: &str,
        ids: Vec<String>,
        documents: Vec<String>,
        metadatas: Vec<DocumentMetadata>,
        embedded_count: usize,
    )
        requires
            old(self).wf(),
        ensures
            final(self).wf(),
            stored(
                old(self).collections@,
                final(self).collections@,
                collection_name@,
                with_documents(
                    docs_map(old(self).collections@, collection_name@),
                    ids@,
                    documents@,
                    metadatas@,
                    min3(min3(ids@.len(), documents@.len(), metadatas@.len()), embedded_count as nat, embedded_count as nat),
                    true,
                ),
            ),
            final(self).query_cache.entries@ == invalidation(old(self).query_cache, collection_name@),
            final(self).query_cache.config == old(self).query_cache.config,
            final(self).query_cache.hit_count == old(self).query_cache.hit_count,
            final(self).query_cache.miss_count == old(self).query_cache.miss_count,
            final(self).health_monitor == old(self).health_monitor,
    {
        let a = if ids.len() <= documents.len() && ids.len() <= metadatas.len() {
            ids.len()
        } else if documents.len() <= metadatas.len() {
            documents.len()
        } else {
            metadatas.len()
        };
        let k = if a <= embedded_count { a } else { embedded_count };
        self.store_documents(collection_name, &ids, &documents, &metadatas, k, true);
        self.query_cache.invalidate_collection(collection_name);
    }

    /// Adds one document under the given id or a generated one and returns
    /// the id. `embedded` says whether its embedding was computed; the
    /// collection's cached queries are dropped.
    pub fn add_single_document_with_embedding(
        &mut self,
        collection_name: &str,
        document: String,
        metadata: DocumentMetadata,
        id: Option<String>,
        embedded: bool,
    ) -> (r: Result<String, String>)
        requires
            old(self).wf(),
        ensures
            final(self).wf(),
            r matches Ok(used) && (id matches Some(given) ==> used == given) && (id is None ==> generated_id(used@))
                && stored(
                old(self).collections@,
                final(self).collections@,
                collection_name@,
                docs_map(old(self).collections@, collection_name@).insert(
                    used@,
                    Document { id: used, content: document, metadata, has_embedding: embedded },
                ),
            ),
            final(self).query_cache.entries@ == invalidation(old(self).query_cache, collection_name@),
            final(self).query_cache.config == old(self).query_cache.config,
            final(self).query_cache.hit_count == old(self).query_cache.hit_count,
            final(self).query_cache.miss_count == old(self).query_cache.miss_count,
            final(self).health_monitor == old(self).health_monitor,
    {
        let used = match id {
            Some(v) => v,
            None => fresh_document_id(),
        };
        let ids = vec![used.clone()];
        let ghost d = document;
        let ghost md = metadata;
        let docs = vec![document];
        let metas = vec![metadata];
        self.store_documents(collection_name, &ids, &docs, &metas, 1, embedded);
        self.query_cache.invalidate_collection(collection_name);
        proof {
            reveal_with_fuel(with_documents, 2);
            assert(ids@[0] == used);
            assert(docs@[0] == d);
            assert(metas@[0] == md);
            assert(with_documents(docs_map(old(self).collections@, collection_name@), ids@, docs@, metas@, 1, embedded)
                == docs_map(old(self).collections@, collection_name@).insert(used@, Document { id: used, content: d, metadata: md, has_embedding: embedded }));
        }
        Ok(used)
    }

    /// Removes documents by id from a collection (made if missing); absent
    /// ids are passed over. The collection's cached queries are dropped.
    pub fn delete(&mut self, collection_name: &str, ids: Vec<String>) -> (r: Result<(), String>)
        requires
            old(self).wf(),
        ensures
            final(self).wf(),
            r is Ok,
            stored(
                old(self).collections@,
                final(self).collections@,
                collection_name@,
                docs_map(old(self).collections@, collection_name@).remove_keys(text_set(ids@)),
            ),
            final(self).query_cache.entries@ == invalidation(old(self).query_cache, collection_name@),
            final(self).query_cache.config == old(self).query_cache.config,
            final(self).query_cache.hit_count == old(self).query_cache.hit_count,
            final(self).query_cache.miss_count == old(self).query_cache.miss_count,
            final(self).health_monitor == old(self).health_monitor,
    {
        let idx = self.get_or_create_collection(collection_name);
        assert(self.collections@.remove(collection_name@) =~= old(self).collections@.remove(collection_name@));
        let mut coll = self.take_collection(idx);
        let ghost mid2 = self.collections@;
        coll.documents.remove_all(&ids);
        self.put_collection(idx, coll);
        proof {
            assert(self.collections@.remove(collection_name@) =~= mid2.remove(collection_name@));
        }
        self.query_cache.invalidate_collection(collection_name);
        Ok(())
    }

    /// Replaces the text and metadata of the listed documents that exist in
    /// a collection (made if missing), pairing ids, texts and metadata in
    /// order; their embeddings are dropped. The collection's cached queries
    /// are dropped.
    pub fn update(
        &mut self,
        collection_name: &str,
        ids: Vec<String>,
        documents: Vec<String>,
        metadatas: Vec<DocumentMetadata>,
    ) -> (r: Result<(), String>)
        requires
            old(self).wf(),
        ensures
            final(self).wf(),
            r is Ok,
            stored(
                old(self).collections@,
                final(self).collections@,
                collection_name@,
                with_updates(
                    docs_map(old(self).collections@, collection_name@),
                    ids@,
                    documents@,
                    metadatas@,
                    min3(ids@.len(), documents@.len(), metadatas@.len()),
                ),
            ),
            final(self).query_cache.entries@ == invalidation(old(self).query_cache, collection_name@),
            final(self).query_cache.config == old(self).query_cache.config,
            final(self).query_cache.hit_count == old(self).query_cache.hit_count,
            final(self).query_cache.miss_count == old(self).query_cache.miss_count,
            final(self).health_monitor == old(self).health_monitor,
    {
        let k = if ids.len() <= documents.len() && ids.len() <= metadatas.len() {
            ids.len()
        } else if documents.len() <= metadatas.len() {
            documents.len()
        } else {
            metadatas.len()
        };
        let idx = self.get_or_create_collection(collection_name);
        assert(self.collections@.remove(collection_name@) =~= old(self).collections@.remove(collection_name@));
        let mut coll = self.take_collection(idx);
        let ghost mid2 = self.collections@;
        assert(coll.documents@ == docs_map(old(self).collections@, collection_name@));
        let mut i: usize = 0;
        while i < k
            invariant
                k <= ids@.len(),
                k <= documents@.len(),
                k <= metadatas@.len(),
                i <= k,
                coll.documents.wf(),
                coll.documents@ == with_updates(docs_map(old(self).collections@, collection_name@), ids@, documents@, metadatas@, i as nat),
            decreases k - i,
        {
            proof { coll.documents.lemma_view(); }
            match coll.documents.position(ids[i].as_str()) {
                Some(p) => {
                    let placeholder = Document {
                        id: String::new(),
                        content: String::new(),
                        metadata: DocumentMetadata {
                            source: String::new(),
                            document_type: String::new(),
                            language: None,
                            timestamp: String::new(),
                            file_path: None,
                            url: None,
                            title: None,
                            additional: String::new(),
                        },
                        has_embedding: false,
                    };
                    let old_doc = coll.documents.replace_at(p, placeholder);
                    let fresh = Document {
                        id: old_doc.id,
                        content: documents[i].clone(),
                        metadata: metadatas[i].duplicate(),
                        has_embedding: false,
                    };
                    let _ = coll.documents.replace_at(p, fresh);
                },
                None => {},
            }
            i += 1;
        }
        self.put_collection(idx, coll);
        proof {
            assert(self.collections@.remove(collection_name@) =~= mid2.remove(collection_name@));
        }
        self.query_cache.invalidate_collection(collection_name);
        Ok(())
    }

    /// The number of documents in a collection (made if missing).
    pub fn count(&mut self, collection_name: &str) -> (r: Result<usize, String>)
        requires
            old(self).wf(),
        ensures
            final(self).wf(),
            with_collection(old(self).collections@, final(self).collections@, collection_name@),
            r matches Ok(n) && n == docs_seq(old(self).collections@, collection_name@).len(),
            final(self).query_cache == old(self).query_cache,
            final(self).health_monitor == old(self).health_monitor,
    {
        let idx = self.get_or_create_collection(collection_name);
        proof { self.collections.lemma_view(); }
        let (_k, c) = self.collections.entry_at(idx);
        proof { c.documents.lemma_view(); }
        Ok(c.documents.len())
    }

    /// Removes a collection and its documents.
    pub fn delete_collection(&mut self, collection_name: &str)
        requires
            old(self).wf(),
        ensures
            final(self).wf(),
            final(self).collections@ == old(self).collections@.remove(collection_name@),
            final(self).query_cache == old(self).query_cache,
            final(self).health_monitor == old(self).health_monitor,
    {
        let _ = self.collections.remove(collection_name);
        proof {
            assert forall|q: Seq<char>| #[trigger] self.collections@.contains_key(q) implies self.collections@[q].documents.wf() by {
                assert(old(self).collections@.contains_key(q));
            }
        }
    }

    /// Runs a keyword query, answering from the cache when it holds a live
    /// entry for the same query; otherwise the query runs over the
    /// collection (made if missing) and its results are cached.
    pub fn query(
        &mut self,
        collection_name: &str,
        query_text: &str,
        n_results: usize,
        filter: Option<&str>,
        now_ms: u64,
    ) -> (r: Result<Vec<QueryHit>, String>)
        requires
            old(self).wf(),
        ensures
            final(self).wf(),
            final(self).health_monitor == old(self).health_monitor,
            query_outcome(*old(self), *final(self), collection_name@, query_text@, n_results, opt_str(filter), now_ms, r),
    {
        let key = cache_key(collection_name, query_text, n_results, filter);
        match self.query_cache.get(key.as_str(), now_ms) {
            Some(v) => {
                return Ok(v);
            },
            None => {},
        }
        let results = self.perform_query(collection_name, query_text, n_results);
        let ghost mid = self.query_cache;
        let stored = copy_hits(&results);
        let ghost sv = stored;
        let ghost kk = key@;
        let name = owned(collection_name);
        let ghost nv = name;
        self.query_cache.put(key, name, stored, None, now_ms);
        assert(put_outcome(mid, self.query_cache.entries@, kk, nv, sv, None::<u64>, now_ms));
        Ok(results)
    }

    /// Runs a keyword query without the cache.
    pub fn query_without_cache(&mut self, collection_name: &str, query_text: &str, n_results: usize) -> (r: Result<Vec<QueryHit>, String>)
        requires
            old(self).wf(),
        ensures
            final(self).wf(),
            with_collection(old(self).collections@, final(self).collections@, collection_name@),
            r matches Ok(v) && v@ == query_results(docs_seq(old(self).collections@, collection_name@), query_text@, n_results),
            final(self).query_cache == old(self).query_cache,
            final(self).health_monitor == old(self).health_monitor,
    {
        Ok(self.perform_query(collection_name, query_text, n_results))
    }

    /// The counts of the query cache at `now_ms`.
    pub fn get_cache_stats(&self, now_ms: u64) -> (r: CacheStats)
        requires
            self.wf(),
            self.query_cache.entries.keys().len() * 1024 <= usize::MAX,
        ensures
            r.total_entries == self.query_cache.entries.keys().len(),
            r.total_hits == self.query_cache.hit_count,
            r.total_misses == self.query_cache.miss_count,
            r.memory_usage_bytes == self.query_cache.entries.keys().len() * 1024,
            r.oldest_entry_age_seconds == crate::query_cache::oldest_age(self.query_cache.entries.values(), now_ms),
    {
        self.query_cache.get_stats(now_ms)
    }

    /// Empties the query cache.
    pub fn clear_cache(&mut self)
        ensures
            final(self).query_cache.entries@ == Map::<Seq<char>, crate::query_cache::CachedQueryResult>::empty(),
            final(self).query_cache.wf(),
            final(self).query_cache.config == old(self).query_cache.config,
            final(self).query_cache.hit_count == 0,
            final(self).query_cache.miss_count == 0,
            final(self).collections == old(self).collections,
            final(self).health_monitor == old(self).health_monitor,
    {
        self.query_cache.clear();
    }

    /// Drops the cached queries of a collection.
    pub fn invalidate_collection_cache(&mut self, collection_name: &str)
        requires
            old(self).wf(),
        ensures
            final(self).wf(),
            final(self).query_cache.entries@ == invalidation(old(self).query_cache, collection_name@),
            final(self).query_cache.config == old(self).query_cache.config,
            final(self).query_cache.hit_count == old(self).query_cache.hit_count,
            final(self).query_cache.miss_count == old(self).query_cache.miss_count,
            final(self).collections == old(self).collections,
            final(self).health_monitor == old(self).health_monitor,
    {
        self.query_cache.invalidate_collection(collection_name);
    }
}

/// Whether `id` is one of `ids`.
fn listed_id(ids: &Vec<String>, id: &str) -> (r: bool)
    ensures
        r == texts(ids@).contains(id@),
{
    let mut i: usize = 0;
    while i < ids.len()
        invariant
            i <= ids@.len(),
            forall|j: int| 0 <= j < i ==> ids@[j]@ != id@,
        decreases ids@.len() - i,
    {
        if str_equals(ids[i].as_str(), id) {
            assert(texts(ids@)[i as int] == id@);
            return true;
        }
        i += 1;
    }
    proof {
        if texts(ids@).contains(id@) {
            let j = choose|j: int| 0 <= j < texts(ids@).len() && texts(ids@)[j] == id@;
            assert(ids@[j]@ == id@);
        }
    }
    false
}

/// The wanted keys of a listing, if ids are given.
pub open spec fn wanted_of(ids: Option<Vec<String>>) -> Option<Seq<Seq<char>>> {
    match ids {
        Some(v) => Some(texts(v@)),
        None => None,
    }
}

/// The documents of a collection (made if missing) that are listed by id
/// (all when no ids are given), in store order, at most `limit` of them.
/// Each comes back with its key as id and no keyword counts.
pub fn get_documents_from_chroma(
    manager: &mut ChromaManager,
    collection_name: &str,
    ids: Option<Vec<String>>,
    limit: Option<usize>,
) -> (r: Result<Vec<QueryHit>, String>)
    requires
        old(manager).wf(),
    ensures
        final(manager).wf(),
        with_collection(old(manager).collections@, final(manager).collections@, collection_name@),
        final(manager).query_cache == old(manager).query_cache,
        final(manager).health_monitor == old(manager).health_monitor,
        r matches Ok(v) && ({
            let c = final(manager).collections@[collection_name@].documents;
            let pos = listed_positions(c.keys(), wanted_of(ids));
            let max = match limit {
                Some(l) => l as int,
                None => usize::MAX as int,
            };
            &&& v@.len() == if pos.len() < max { pos.len() as int } else { max }
            &&& forall|j: int| 0 <= j < v@.len() ==> {
                let d = c.values()[pos[j]];
                &&& (#[trigger] v@[j]).id@ == c.keys()[pos[j]]
                &&& v@[j].document == d.content
                &&& v@[j].metadata == d.metadata
                &&& v@[j].matches == 0
                &&& v@[j].keyword_count == 0
            }
        }),
{
    let idx = manager.get_or_create_collection(collection_name);
    proof { manager.collections.lemma_view(); }
    let (_name, coll) = manager.collections.entry_at(idx);
    proof { coll.documents.lemma_view(); }
    let ghost keys = coll.documents.keys();
    let ghost vals = coll.documents.values();
    let max_count: usize = match limit {
        Some(l) => l,
        None => usize::MAX,
    };
    let n = coll.documents.len();
    let mut out: Vec<QueryHit> = Vec::new();
    let mut i: usize = 0;
    while i < n && out.len() < max_count
        invariant
            coll.documents.wf(),
            keys == coll.documents.keys(),
            vals == coll.documents.values(),
            n == keys.len(),
            n == vals.len(),
            i <= n,
            out@.len() <= max_count,
            out@.len() <= listed_positions(keys.take(i as int), wanted_of(ids)).len(),
            out@.len() < max_count ==> out@.len() == listed_positions(keys.take(i as int), wanted_of(ids)).len(),
            forall|j: int| 0 <= j < out@.len() ==> {
                let p = listed_positions(keys.take(i as int), wanted_of(ids))[j];
                &&& 0 <= p < n
                &&& (#[trigger] out@[j]).id@ == keys[p]
                &&& out@[j].document == vals[p].content
                &&& out@[j].metadata == vals[p].metadata
                &&& out@[j].matches == 0
                &&& out@[j].keyword_count == 0
            },
        decreases n - i,
    {
        let ghost before = listed_positions(keys.take(i as int), wanted_of(ids));
        assert(keys.take(i + 1).drop_last() =~= keys.take(i as int));
        assert(keys.take(i + 1).last() == keys[i as int]);
        let (k, d) = coll.documents.entry_at(i);
        let wanted = match &ids {
            Some(v) => listed_id(v, k.as_str()),
            None => true,
        };
        if wanted {
            out.push(QueryHit {
                document: d.content.clone(),
                metadata: d.metadata.duplicate(),
                matches: 0,
                keyword_count: 0,
                id: k.clone(),
            });
        }
        proof {
            let after = listed_positions(keys.take(i + 1), wanted_of(ids));
            if wanted {
                assert(after == before.push(i as int));
            } else {
                assert(after == before);
            }
        }
        i += 1;
    }
    proof {
        let full = listed_positions(keys, wanted_of(ids));
        if i == n {
            assert(keys.take(n as int) =~= keys);
        }
        lemma_listed_prefix(keys, wanted_of(ids), i as int);
    }
    Ok(out)
}

/// The listing of a prefix is a prefix of the listing.
proof fn lemma_listed_prefix(keys: Seq<Seq<char>>, wanted: Option<Seq<Seq<char>>>, i: int)
    requires
        0 <= i <= keys.len(),
    ensures
        listed_positions(keys.take(i), wanted).len() <= listed_positions(keys, wanted).len(),
        forall|j: int| 0 <= j < listed_positions(keys.take(i), wanted).len() ==> #[trigger] listed_positions(keys.take(i), wanted)[j]
            == listed_positions(keys, wanted)[j],
    decreases keys.len(),
{
    if i == keys.len() {
        assert(keys.take(i) =~= keys);
    } else {
        assert(keys.drop_last().take(i) =~= keys.take(i));
        lemma_listed_prefix(keys.drop_last(), wanted, i);
    }
}

impl ChromaManager {
    /// The number of collections, of documents in them all, and the memory
    /// estimate of 1 KiB per document.
    pub fn health_counts(&self) -> (r: (usize, usize, usize))
        requires
            self.wf(),
            total_docs(self.collections.values()) * 1024 <= usize::MAX,
        ensures
            r.0 == self.collections.keys().len(),
            r.1 == total_docs(self.collections.values()),
            r.2 == total_docs(self.collections.values()) * 1024,
    {
        proof { self.collections.lemma_view(); }
        let ghost cs = self.collections.values();
        let n = self.collections.len();
        let mut total: usize = 0;
        let mut i: usize = 0;
        while i < n
            invariant
                self.wf(),
                cs == self.collections.values(),
                n == cs.len(),
                n == self.collections.keys().len(),
                i <= n,
                total == total_docs(cs.take(i as int)),
                total_docs(cs) * 1024 <= usize::MAX,
            decreases n - i,
        {
            let (_k, c) = self.collections.entry_at(i);
            proof {
                assert(cs.take(i + 1).drop_last() =~= cs.take(i as int));
                lemma_total_docs_prefix(cs, i + 1);
            }
            proof { c.documents.lemma_view(); }
            total = total + c.documents.len();
            i += 1;
        }
        assert(cs.take(n as int) =~= cs);
        (n, total, total * 1024)
    }

    /// Records the store's counts in its health statistics, stamped `now`.
    pub fn update_health_stats(&mut self, now: u64)
        requires
            old(self).wf(),
            total_docs(old(self).collections.values()) * 1024 <= usize::MAX,
        ensures
            final(self).wf(),
            final(self).collections == old(self).collections,
            final(self).query_cache == old(self).query_cache,
            final(self).health_monitor.config == old(self).health_monitor.config,
            final(self).health_monitor.is_monitoring == old(self).health_monitor.is_monitoring,
            final(self).health_monitor.stats == (crate::health::ChromaHealthStats {
                total_collections: old(self).collections.keys().len() as usize,
                total_documents: total_docs(old(self).collections.values()) as usize,
                memory_usage_estimate_bytes: (total_docs(old(self).collections.values()) * 1024) as usize,
                last_check_time: Some(now),
                ..old(self).health_monitor.stats
            }),
    {
        let (c, d, m) = self.health_counts();
        self.health_monitor.update_counts(c, d, m, now);
    }

    /// Records how a monitored operation ended, `elapsed_ms` after it
    /// started, at `now`: a success is recorded and the counts refreshed,
    /// and its value returned; a failure is recorded and comes back named
    /// after the operation.
    pub fn finish_monitored<T>(&mut self, operation_name: &str, outcome: Result<T, String>, elapsed_ms: u64, now: u64) -> (r: Result<T, String>)
        requires
            old(self).wf(),
            total_docs(old(self).collections.values()) * 1024 <= usize::MAX,
            old(self).health_monitor.stats.total_operations < u64::MAX,
            old(self).health_monitor.stats.total_failures < u64::MAX,
            old(self).health_monitor.stats.consecutive_failures < u32::MAX,
        ensures
            final(self).wf(),
            final(self).collections == old(self).collections,
            final(self).query_cache == old(self).query_cache,
            final(self).health_monitor.config == old(self).health_monitor.config,
            match outcome {
                Ok(v) => r == Ok::<T, String>(v) && final(self).health_monitor.stats == (crate::health::ChromaHealthStats {
                    total_collections: old(self).collections.keys().len() as usize,
                    total_documents: total_docs(old(self).collections.values()) as usize,
                    memory_usage_estimate_bytes: (total_docs(old(self).collections.values()) * 1024) as usize,
                    last_check_time: Some(now),
                    ..crate::health::after_operation(old(self).health_monitor.stats, old(self).health_monitor.config, true, elapsed_ms, now)
                }),
                Err(e) => (r matches Err(m) && m@ == operation_name@ + " failed: "@ + e@) && final(self).health_monitor.stats
                    == crate::health::after_operation(old(self).health_monitor.stats, old(self).health_monitor.config, false, elapsed_ms, now),
            },
    {
        match outcome {
            Ok(v) => {
                self.health_monitor.record_operation(true, elapsed_ms, now);
                self.update_health_stats(now);
                Ok(v)
            },
            Err(e) => {
                self.health_monitor.record_operation(false, elapsed_ms, now);
                let head = concat(operation_name, " failed: ");
                Err(concat(head.as_str(), e.as_str()))
            },
        }
    }
}

proof fn lemma_total_docs_prefix(cs: Seq<InMemoryCollection>, i: int)
    requires
        0 <= i <= cs.len(),
    ensures
        0 <= total_docs(cs.take(i)) <= total_docs(cs),
    decreases cs.len(),
{
    lemma_total_docs_nonneg(cs.take(i));
    if i < cs.len() {
        assert(cs.drop_last().take(i) =~= cs.take(i));
        lemma_total_docs_prefix(cs.drop_last(), i);
    } else {
        assert(cs.take(i) =~= cs);
    }
}

proof fn lemma_total_docs_nonneg(cs: Seq<InMemoryCollection>)
    ensures
        total_docs(cs) >= 0,
    decreases cs.len(),
{
    if cs.len() > 0 {
        lemma_total_docs_nonneg(cs.drop_last());
    }
}

/// A document stored under an id that no later pair repeats is the one the
/// store holds under it: what a read gives back of a write.
pub proof fn law_stored_document_is_found(
    m: Map<Seq<char>, Document>,
    ids: Seq<String>,
    contents: Seq<String>,
    metas: Seq<DocumentMetadata>,
    k: nat,
    embedded: bool,
    i: int,
)
    requires
        0 <= i < k,
        forall|j: int| i < j < k ==> ids[j]@ != ids[i]@,
    ensures
        with_documents(m, ids, contents, metas, k, embedded).contains_key(ids[i]@),
        with_documents(m, ids, contents, metas, k, embedded)[ids[i]@] == (Document {
            id: ids[i],
            content: contents[i],
            metadata: metas[i],
            has_embedding: embedded,
        }),
    decreases k,
{
    if i < k - 1 {
        law_stored_document_is_found(m, ids, contents, metas, (k - 1) as nat, embedded, i);
    }
}

/// Every document in a bucket has exactly that many keyword matches.
proof fn lemma_bucket_counts(docs: Seq<Document>, kw: Seq<Seq<char>>, m: nat)
    ensures
        forall|j: int| 0 <= j < bucket(docs, kw, m).len() ==> match_count(#[trigger] bucket(docs, kw, m)[j].content@, kw) == m,
    decreases docs.len(),
{
    if docs.len() > 0 {
        lemma_bucket_counts(docs.drop_last(), kw, m);
    }
}

proof fn lemma_ranked_sorted(docs: Seq<Document>, kw: Seq<Seq<char>>, top: nat, m: nat)
    ensures
        forall|j: int| 0 <= j < ranked_above(docs, kw, top, m).len() ==> m < match_count(
            #[trigger] ranked_above(docs, kw, top, m)[j].content@,
            kw,
        ) <= top,
        forall|a: int, b: int|
            0 <= a < b < ranked_above(docs, kw, top, m).len() ==> match_count(
                #[trigger] ranked_above(docs, kw, top, m)[a].content@,
                kw,
            ) >= match_count(#[trigger] ranked_above(docs, kw, top, m)[b].content@, kw),
    decreases top - m,
{
    if m < top {
        lemma_ranked_sorted(docs, kw, top, m + 1);
        lemma_bucket_counts(docs, kw, m + 1);
        let r = ranked_above(docs, kw, top, m + 1);
        let b = bucket(docs, kw, m + 1);
        assert(ranked_above(docs, kw, top, m) == r + b);
        assert forall|j: int| 0 <= j < (r + b).len() implies m < match_count(#[trigger] (r + b)[j].content@, kw) <= top by {
            if j < r.len() {
                assert((r + b)[j] == r[j]);
            } else {
                assert((r + b)[j] == b[j - r.len()]);
            }
        }
        assert forall|a: int, c: int| 0 <= a < c < (r + b).len() implies match_count(#[trigger] (r + b)[a].content@, kw)
            >= match_count(#[trigger] (r + b)[c].content@, kw) by {
            if c < r.len() {
                assert((r + b)[a] == r[a]);
                assert((r + b)[c] == r[c]);
            } else if a < r.len() {
                assert((r + b)[a] == r[a]);
                assert((r + b)[c] == b[c - r.len()]);
            } else {
                assert((r + b)[a] == b[a - r.len()]);
                assert((r + b)[c] == b[c - r.len()]);
            }
        }
    }
}

proof fn lemma_match_count_bound(content: Seq<char>, kw: Seq<Seq<char>>)
    ensures
        match_count(content, kw) <= kw.len(),
{
    crate::select::lemma_count_where_bound(kw.len() as int, |i: int| contains(lowercase(content), kw[i]));
}

/// A query returns only documents that contain at least one keyword, best
/// matches first, and no more than asked for.
pub proof fn law_query_ranks_best_first(docs: Seq<Document>, query: Seq<char>, n: usize)
    requires
        keywords_of(query).len() <= usize::MAX,
    ensures
        query_results(docs, query, n).len() <= n,
        forall|j: int| 0 <= j < query_results(docs, query, n).len() ==> (#[trigger] query_results(docs, query, n)[j]).matches >= 1,
        forall|a: int, b: int|
            0 <= a < b < query_results(docs, query, n).len() ==> (#[trigger] query_results(docs, query, n)[a]).matches
                >= (#[trigger] query_results(docs, query, n)[b]).matches,
{
    let kw = keywords_of(query);
    let r = ranked_above(docs, kw, kw.len(), 0);
    lemma_ranked_sorted(docs, kw, kw.len(), 0);
    let all = hits_of(r, kw);
    assert forall|j: int| 0 <= j < all.len() implies (#[trigger] all[j]).matches == match_count(r[j].content@, kw) by {
        lemma_match_count_bound(r[j].content@, kw);
    }
    let res = query_results(docs, query, n);
    assert forall|j: int| 0 <= j < res.len() implies (#[trigger] res[j]).matches >= 1 by {
        assert(res[j] == all[j]);
        assert(match_count(r[j].content@, kw) > 0);
    }
    assert forall|a: int, b: int| 0 <= a < b < res.len() implies (#[trigger] res[a]).matches >= (#[trigger] res[b]).matches by {
        assert(res[a] == all[a]);
        assert(res[b] == all[b]);
        assert(match_count(r[a].content@, kw) >= match_count(r[b].content@, kw));
    }
}

/// Some keyword occurs in the lowercase form of `content`.
pub open spec fn mentions_keyword(content: Seq<char>, kw: Seq<Seq<char>>) -> bool {
    exists|i: int| 0 <= i < kw.len() && contains(lowercase(content), #[trigger] kw[i])
}

/// How many of `docs` mention some keyword.
pub open spec fn mentioning_count(docs: Seq<Document>, kw: Seq<Seq<char>>) -> nat
    decreases docs.len(),
{
    if docs.len() == 0 {
        0
    } else {
        mentioning_count(docs.drop_last(), kw) + if mentions_keyword(docs.last().content@, kw) {
            1nat
        } else {
            0nat
        }
    }
}

proof fn lemma_count_where_positive(n: int, p: spec_fn(int) -> bool)
    requires
        n >= 0,
    ensures
        count_where(n, p) > 0 <==> exists|i: int| 0 <= i < n && #[trigger] p(i),
    decreases n,
{
    if n > 0 {
        lemma_count_where_positive(n - 1, p);
        if p(n - 1) {
            assert(count_where(n, p) > 0);
        }
    }
}

/// A document has a keyword match exactly when it mentions a keyword.
proof fn lemma_matched_iff_mentions(content: Seq<char>, kw: Seq<Seq<char>>)
    ensures
        match_count(content, kw) > 0 <==> mentions_keyword(content, kw),
        match_count(content, kw) <= kw.len(),
{
    let p = |i: int| contains(lowercase(content), kw[i]);
    lemma_count_where_positive(kw.len() as int, p);
    lemma_match_count_bound(content, kw);
    if mentions_keyword(content, kw) {
        let i = choose|i: int| 0 <= i < kw.len() && contains(lowercase(content), #[trigger] kw[i]);
        assert(p(i));
    }
    if match_count(content, kw) > 0 {
        let i = choose|i: int| 0 <= i < kw.len() && #[trigger] p(i);
        assert(contains(lowercase(content), kw[i]));
    }
}

/// A document with exactly `m` matches is in the bucket for `m`.
proof fn lemma_bucket_has(docs: Seq<Document>, kw: Seq<Seq<char>>, m: nat, j: int)
    requires
        0 <= j < docs.len(),
        match_count(docs[j].content@, kw) == m,
    ensures
        bucket(docs, kw, m).contains(docs[j]),
    decreases docs.len(),
{
    let b = bucket(docs.drop_last(), kw, m);
    if j == docs.len() - 1 {
        assert(bucket(docs, kw, m) == b.push(docs.last()));
        assert(bucket(docs, kw, m)[b.len() as int] == docs[j]);
    } else {
        assert(docs.drop_last()[j] == docs[j]);
        lemma_bucket_has(docs.drop_last(), kw, m, j);
        let k = choose|k: int| 0 <= k < b.len() && b[k] == docs[j];
        if match_count(docs.last().content@, kw) == m {
            assert(b.push(docs.last())[k] == docs[j]);
        }
    }
}

/// A document with more than `m` and at most `top` matches is ranked.
proof fn lemma_ranked_has(docs: Seq<Document>, kw: Seq<Seq<char>>, top: nat, m: nat, j: int)
    requires
        0 <= j < docs.len(),
        m < match_count(docs[j].content@, kw) <= top,
    ensures
        ranked_above(docs, kw, top, m).contains(docs[j]),
    decreases top - m,
{
    let r = ranked_above(docs, kw, top, m + 1);
    let b = bucket(docs, kw, m + 1);
    assert(ranked_above(docs, kw, top, m) == r + b);
    if match_count(docs[j].content@, kw) == m + 1 {
        lemma_bucket_has(docs, kw, m + 1, j);
        let k = choose|k: int| 0 <= k < b.len() && b[k] == docs[j];
        assert((r + b)[r.len() + k] == docs[j]);
    } else {
        lemma_ranked_has(docs, kw, top, m + 1, j);
        let k = choose|k: int| 0 <= k < r.len() && r[k] == docs[j];
        assert((r + b)[k] == docs[j]);
    }
}

/// Adding a document to the end adds one ranked document when its match
/// count lies in the ranked range.
proof fn lemma_ranked_len_step(docs: Seq<Document>, kw: Seq<Seq<char>>, top: nat, m: nat)
    requires
        docs.len() > 0,
    ensures
        ranked_above(docs, kw, top, m).len() == ranked_above(docs.drop_last(), kw, top, m).len() + if m < match_count(
            docs.last().content@,
            kw,
        ) <= top {
            1nat
        } else {
            0nat
        },
    decreases top - m,
{
    if m < top {
        lemma_ranked_len_step(docs, kw, top, m + 1);
    }
}

/// Nothing is ranked among no documents.
proof fn lemma_ranked_empty(docs: Seq<Document>, kw: Seq<Seq<char>>, top: nat, m: nat)
    requires
        docs.len() == 0,
    ensures
        ranked_above(docs, kw, top, m).len() == 0,
    decreases top - m,
{
    if m < top {
        lemma_ranked_empty(docs, kw, top, m + 1);
    }
}

/// The ranked documents are exactly as many as the documents that mention
/// a keyword.
proof fn lemma_ranked_len(docs: Seq<Document>, kw: Seq<Seq<char>>)
    ensures
        ranked_above(docs, kw, kw.len(), 0).len() == mentioning_count(docs, kw),
    decreases docs.len(),
{
    if docs.len() > 0 {
        lemma_ranked_len(docs.drop_last(), kw);
        lemma_ranked_len_step(docs, kw, kw.len(), 0);
        lemma_matched_iff_mentions(docs.last().content@, kw);
    } else {
        lemma_ranked_empty(docs, kw, kw.len(), 0);
    }
}

/// A query misses no document that mentions one of its keywords: the
/// results are as many as such documents (at most `n`), and when `n`
/// leaves room for all of them, each of them is among the results.
pub proof fn law_query_finds_every_mention(docs: Seq<Document>, query: Seq<char>, n: usize, j: int)
    ensures
        query_results(docs, query, n).len() == if n < mentioning_count(docs, keywords_of(query)) {
            n as nat
        } else {
            mentioning_count(docs, keywords_of(query))
        },
        0 <= j < docs.len() && mentions_keyword(docs[j].content@, keywords_of(query)) && n >= mentioning_count(
            docs,
            keywords_of(query),
        ) ==> exists|k: int|
            0 <= k < query_results(docs, query, n).len() && (#[trigger] query_results(docs, query, n)[k]).id
                == docs[j].id && query_results(docs, query, n)[k].document == docs[j].content,
{
    let kw = keywords_of(query);
    let r = ranked_above(docs, kw, kw.len(), 0);
    lemma_ranked_len(docs, kw);
    let res = query_results(docs, query, n);
    if 0 <= j < docs.len() && mentions_keyword(docs[j].content@, kw) && n >= mentioning_count(docs, kw) {
        lemma_matched_iff_mentions(docs[j].content@, kw);
        lemma_ranked_has(docs, kw, kw.len(), 0, j);
        let k = choose|k: int| 0 <= k < r.len() && r[k] == docs[j];
        assert(res == hits_of(r, kw));
        assert(res[k] == hit_for(r[k], kw));
    }
}

} // verus!
