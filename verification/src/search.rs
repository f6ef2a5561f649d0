//! The web search client: where its queries go, what they ask for, and how
//! the hits that come back are read.

use vstd::prelude::*;
use crate::health::{SearXNGHealthConfig, SearXNGHealthMonitor, SearXNGHealthStats, SearchPlan};
use crate::keyed::texts;
use crate::text::{concat, copy_strings, decimal, decimal_digits, join, join_texts, owned};

verus! {

/// The address of the search service when none is given.
pub open spec fn default_search_server() -> Seq<char> {
    "http://localhost:8080"@
}

/// The engines asked when a search names none.
pub open spec fn default_engine_names() -> Seq<Seq<char>> {
    seq!["github"@, "stackoverflow"@, "google"@, "duckduckgo"@]
}

/// The categories asked when a search names none.
pub open spec fn default_category_names() -> Seq<Seq<char>> {
    seq!["general"@, "it"@]
}

/// One hit of a search.
#[derive(Debug)]
pub struct SearchResult {
    pub title: String,
    pub url: String,
    pub content: String,
    pub engine: String,
}

impl SearchResult {
    /// A copy of the hit.
    pub fn duplicate(&self) -> (r: SearchResult)
        ensures
            r == *self,
    {
        SearchResult {
            title: self.title.clone(),
            url: self.url.clone(),
            content: self.content.clone(),
            engine: self.engine.clone(),
        }
    }
}

/// A hit as the service's reply carries it: each field that the reply holds
/// as text, and none where it holds nothing or something else.
#[derive(Debug)]
pub struct RawSearchHit {
    pub title: Option<String>,
    pub url: Option<String>,
    pub content: Option<String>,
    pub snippet: Option<String>,
    pub engine: Option<String>,
}

/// The text of an optional field, or a default.
pub open spec fn text_or(field: Option<String>, default: Seq<char>) -> Seq<char> {
    match field {
        Some(t) => t@,
        None => default,
    }
}

/// What a hit reads from its raw form: the title (else "Untitled"), the
/// address (else empty), the content (else the snippet, else empty) and the
/// engine (else "unknown").
pub open spec fn read_hit(raw: RawSearchHit) -> (Seq<char>, Seq<char>, Seq<char>, Seq<char>) {
    (
        text_or(raw.title, "Untitled"@),
        text_or(raw.url, ""@),
        match raw.content {
            Some(c) => c@,
            None => text_or(raw.snippet, ""@),
        },
        text_or(raw.engine, "unknown"@),
    )
}

/// The hit `r` is what `raw` reads as.
pub open spec fn reads_as(r: SearchResult, raw: RawSearchHit) -> bool {
    (r.title@, r.url@, r.content@, r.engine@) == read_hit(raw)
}

fn text_or_default(field: &Option<String>, default: &str) -> (r: String)
    ensures
        r@ == text_or(*field, default@),
{
    match field {
        Some(t) => t.clone(),
        None => owned(default),
    }
}

/// Reads one hit of the service's reply.
pub fn hit_from_raw(raw: &RawSearchHit) -> (r: SearchResult)
    ensures
        reads_as(r, *raw),
{
    let content = match &raw.content {
        Some(c) => c.clone(),
        None => text_or_default(&raw.snippet, ""),
    };
    SearchResult {
        title: text_or_default(&raw.title, "Untitled"),
        url: text_or_default(&raw.url, ""),
        content,
        engine: text_or_default(&raw.engine, "unknown"),
    }
}

/// How many hits a search keeps: all of them, or at most the limit asked
/// for.
pub open spec fn kept_hits(n: nat, limit: Option<usize>) -> nat {
    match limit {
        Some(k) => if n < k { n } else { k as nat },
        None => n,
    }
}

/// Reads the hits of the service's reply, in order, keeping at most `limit`
/// of them when a limit is given.
pub fn search_results(raw: &Vec<RawSearchHit>, limit: Option<usize>) -> (r: Vec<SearchResult>)
    ensures
        r@.len() == kept_hits(raw@.len(), limit),
        forall|i: int| 0 <= i < r@.len() ==> reads_as(#[trigger] r@[i], raw@[i]),
{
    let n = match limit {
        Some(k) => if raw.len() < k { raw.len() } else { k },
        None => raw.len(),
    };
    let mut r: Vec<SearchResult> = Vec::new();
    let mut i: usize = 0;
    while i < n
        invariant
            n <= raw@.len(),
            i <= n,
            r@.len() == i,
            forall|j: int| 0 <= j < i ==> reads_as(#[trigger] r@[j], raw@[j]),
        decreases n - i,
    {
        r.push(hit_from_raw(&raw[i]));
        i += 1;
    }
    r
}

/// The first hit, or the error given when a search found nothing.
pub fn first_result(results: &Vec<SearchResult>) -> (r: Result<SearchResult, String>)
    ensures
        results@.len() > 0 ==> r == Ok::<SearchResult, String>(results@[0]),
        results@.len() == 0 ==> (r matches Err(e) && e@ == "No search results found"@),
{
    if results.len() > 0 {
        Ok(results[0].duplicate())
    } else {
        Err(owned("No search results found"))
    }
}

/// The single hit given in place of a search while the service is degraded,
/// with the notice as its content.
pub fn degraded_result(notice: String) -> (r: SearchResult)
    ensures
        r.title@ == "Search Service Degraded"@,
        r.url@ == ""@,
        r.content == notice,
        r.engine@ == "fallback"@,
{
    SearchResult {
        title: owned("Search Service Degraded"),
        url: owned(""),
        content: notice,
        engine: owned("fallback"),
    }
}

/// What a search with fallback answers, given what the health of the
/// service called for and, where it called for a search, the hits found:
/// the error while the service is unavailable, the notice while it is
/// degraded, and the first hit otherwise.
pub fn fallback_answer(plan: SearchPlan, results: &Vec<SearchResult>) -> (r: Result<SearchResult, String>)
    ensures
        plan matches SearchPlan::Unavailable { error } ==> r == Err::<SearchResult, String>(error),
        plan matches SearchPlan::Degraded { content } ==> (r matches Ok(h) && h.content == content
            && h.title@ == "Search Service Degraded"@ && h.url@ == ""@ && h.engine@ == "fallback"@),
        plan is Search && results@.len() > 0 ==> r == Ok::<SearchResult, String>(results@[0]),
        plan is Search && results@.len() == 0 ==> (r matches Err(e) && e@ == "No search results found"@),
{
    match plan {
        SearchPlan::Unavailable { error } => Err(error),
        SearchPlan::Degraded { content } => Ok(degraded_result(content)),
        SearchPlan::Search => first_result(results),
    }
}

/// A request to the service: the address and the query parameters, in order.
#[derive(Debug)]
pub struct SearchRequest {
    pub url: String,
    pub params: Vec<(String, String)>,
}

/// The texts of a list of parameters.
pub open spec fn param_texts(p: Seq<(String, String)>) -> Seq<(Seq<char>, Seq<char>)> {
    p.map_values(|e: (String, String)| (e.0@, e.1@))
}

/// The parameters of a search: the query, the JSON format, the engines and
/// the categories each joined with commas, and the limit where one is given.
pub open spec fn search_params(
    query: Seq<char>,
    engines: Seq<Seq<char>>,
    categories: Seq<Seq<char>>,
    limit: Option<usize>,
) -> Seq<(Seq<char>, Seq<char>)> {
    let base = seq![
        ("q"@, query),
        ("format"@, "json"@),
        ("engines"@, join(engines, ","@)),
        ("categories"@, join(categories, ","@)),
    ];
    match limit {
        Some(n) => base.push(("limit"@, decimal_digits(n as nat))),
        None => base,
    }
}

/// A search monitor that has checked nothing yet.
pub open spec fn fresh_monitor(m: SearXNGHealthMonitor, config: SearXNGHealthConfig) -> bool {
    &&& m.config == config
    &&& !m.stats.is_healthy
    &&& !m.stats.is_degraded
    &&& m.stats.last_check_time is None
    &&& m.stats.last_successful_check is None
    &&& m.stats.consecutive_failures == 0
    &&& m.stats.total_checks == 0
    &&& m.stats.total_failures == 0
    &&& m.stats.total_response_time_ms == 0
    &&& m.stats.degradation_reason is None
    &&& !m.is_monitoring
}

/// The search client: the service's address, the engines asked by default
/// and the health of the service.
pub struct SearXNGClient {
    pub base_url: String,
    pub default_engines: Vec<String>,
    pub health_monitor: SearXNGHealthMonitor,
}

fn default_engines() -> (r: Vec<String>)
    ensures
        texts(r@) == default_engine_names(),
{
    let r = vec![owned("github"), owned("stackoverflow"), owned("google"), owned("duckduckgo")];
    assert(texts(r@) =~= default_engine_names());
    r
}

fn default_categories() -> (r: Vec<String>)
    ensures
        texts(r@) == default_category_names(),
{
    let r = vec![owned("general"), owned("it")];
    assert(texts(r@) =~= default_category_names());
    r
}

impl SearXNGClient {
    /// A client of the given service, or of the local default, asking the
    /// default engines and watched with the default health settings.
    pub fn new(base_url: Option<String>) -> (r: Self)
        ensures
            r.base_url@ == text_or(base_url, default_search_server()),
            texts(r.default_engines@) == default_engine_names(),
            fresh_monitor(r.health_monitor, SearXNGHealthConfig {
                check_interval_seconds: 60,
                timeout_seconds: 15,
                max_retry_attempts: 2,
                retry_backoff_seconds: 3,
                auto_reconnect: true,
                graceful_degradation: true,
            }),
    {
        Self::new_with_health_config(base_url, SearXNGHealthConfig::default())
    }

    /// A client of the given service, or of the local default, asking the
    /// default engines and watched with the given health settings.
    pub fn new_with_health_config(base_url: Option<String>, health_config: SearXNGHealthConfig) -> (r: Self)
        ensures
            r.base_url@ == text_or(base_url, default_search_server()),
            texts(r.default_engines@) == default_engine_names(),
            fresh_monitor(r.health_monitor, health_config),
    {
        let base_url = match base_url {
            Some(u) => u,
            None => owned("http://localhost:8080"),
        };
        SearXNGClient {
            base_url,
            default_engines: default_engines(),
            health_monitor: SearXNGHealthMonitor::new(health_config),
        }
    }

    /// Points the client at another service.
    pub fn set_base_url(&mut self, base_url: String)
        ensures
            final(self).base_url == base_url,
            final(self).default_engines == old(self).default_engines,
            final(self).health_monitor == old(self).health_monitor,
    {
        self.base_url = base_url;
    }

    /// The service's address.
    pub fn get_base_url(&self) -> (r: String)
        ensures
            r == self.base_url,
    {
        self.base_url.clone()
    }

    /// Replaces the engines asked by default.
    pub fn set_default_engines(&mut self, engines: Vec<String>)
        ensures
            final(self).default_engines == engines,
            final(self).base_url == old(self).base_url,
            final(self).health_monitor == old(self).health_monitor,
    {
        self.default_engines = engines;
    }

    /// The engines asked by default.
    pub fn get_default_engines(&self) -> (r: Vec<String>)
        ensures
            r@ == self.default_engines@,
    {
        copy_strings(&self.default_engines)
    }

    /// The request of a search: sent to the service's search endpoint, for
    /// the query in JSON, asking the given engines (else the default ones)
    /// and the given categories (else general and IT), and at most `limit`
    /// hits where a limit is given.
    pub fn search_request(
        &self,
        query: &str,
        engines: Option<Vec<String>>,
        categories: Option<Vec<String>>,
        limit: Option<usize>,
    ) -> (r: SearchRequest)
        ensures
            r.url@ == self.base_url@ + "/search"@,
            param_texts(r.params@) == search_params(
                query@,
                match engines {
                    Some(e) => texts(e@),
                    None => texts(self.default_engines@),
                },
                match categories {
                    Some(c) => texts(c@),
                    None => default_category_names(),
                },
                limit,
            ),
    {
        let url = concat(self.base_url.as_str(), "/search");
        let engines = match engines {
            Some(e) => e,
            None => copy_strings(&self.default_engines),
        };
        let categories = match categories {
            Some(c) => c,
            None => default_categories(),
        };
        let engines_text = join_texts(&engines, ",");
        let categories_text = join_texts(&categories, ",");
        let mut params: Vec<(String, String)> = Vec::new();
        params.push((owned("q"), owned(query)));
        params.push((owned("format"), owned("json")));
        params.push((owned("engines"), engines_text));
        params.push((owned("categories"), categories_text));
        proof {
            assert(engines@.map_values(|p: String| p@) =~= texts(engines@));
            assert(categories@.map_values(|p: String| p@) =~= texts(categories@));
        }
        match limit {
            Some(n) => {
                params.push((owned("limit"), decimal(n as u64)));
            },
            None => {},
        }
        assert(param_texts(params@) =~= search_params(
            query@,
            texts(engines@),
            texts(categories@),
            limit,
        ));
        SearchRequest { url, params }
    }

    /// The address of the service's health endpoint.
    pub fn health_url(&self) -> (r: String)
        ensures
            r@ == self.base_url@ + "/healthz"@,
    {
        concat(self.base_url.as_str(), "/healthz")
    }

    /// The health statistics of the service so far.
    pub fn get_health_stats(&self) -> (r: SearXNGHealthStats)
        ensures
            r == self.health_monitor.stats,
    {
        self.health_monitor.get_stats()
    }
}

/// The search categories offered to the user, in order.
pub open spec fn category_names() -> Seq<Seq<char>> {
    seq![
        "general"@,
        "it"@,
        "science"@,
        "news"@,
        "images"@,
        "videos"@,
        "music"@,
        "files"@,
        "social media"@,
    ]
}

/// The search categories offered to the user.
pub fn get_available_categories() -> (r: Vec<String>)
    ensures
        texts(r@) == category_names(),
{
    let r = vec![
        owned("general"),
        owned("it"),
        owned("science"),
        owned("news"),
        owned("images"),
        owned("videos"),
        owned("music"),
        owned("files"),
        owned("social media"),
    ];
    assert(texts(r@) =~= category_names());
    r
}

} // verus!
