//! Documentation pages brought into the document store: a page's title and
//! text, how a fetched page is stored, how a batch of fetches is tallied, and
//! how stored documentation is searched.

use vstd::prelude::*;
use crate::docstore::{
    ChromaManager, docs_map, fresh_document_id, generated_id, min3, query_outcome, stored, with_documents,
};
use crate::health::opt_view;
use crate::hits::{DocumentMetadata, QueryHit};
use crate::keyed::texts;
use crate::search::{SearXNGClient, SearchRequest, SearchResult, param_texts, search_params};
use crate::text::{chars_of, find, first_occurrence, occurs_at, contains, owned, string_of, trim, trim_chars};

verus! {

/// What replacing every match of a regular expression gives (none when the
/// expression does not compile), as the `regex` crate computes it.
pub uninterp spec fn regex_replaced(pattern: Seq<char>, text: Seq<char>, replacement: Seq<char>) -> Option<Seq<char>>;

/// Compiles `pattern` with `regex::Regex::new` and replaces every match in
/// `text` with `replacement` (`Regex::replace_all`); none when the pattern
/// does not compile. The result is named, not described.
#[verifier::external_body]
fn replace_all_matches(pattern: &str, text: &str, replacement: &str) -> (r: Option<String>)
    ensures
        opt_view(r) == regex_replaced(pattern@, text@, replacement@),
{
    match regex::Regex::new(pattern) {
        Ok(re) => Some(re.replace_all(text, replacement).to_string()),
        Err(_) => None,
    }
}

/// The text with its HTML character references decoded, as the
/// `html_escape` crate computes it.
pub uninterp spec fn entities_decoded(text: Seq<char>) -> Seq<char>;

/// Decodes HTML character references (`html_escape::decode_html_entities`).
/// The result is named, not described.
#[verifier::external_body]
fn decode_entities(text: &str) -> (r: String)
    ensures
        r@ == entities_decoded(text@),
{
    html_escape::decode_html_entities(text).to_string()
}

/// The text of a JSON object holding each pair as a string member, as
/// `serde_json` writes it.
pub uninterp spec fn json_object_text(pairs: Seq<(Seq<char>, Seq<char>)>) -> Seq<char>;

/// Writes the pairs as a JSON object of string members
/// (`serde_json::Value::Object`, then `to_string`). The result is named, not
/// described.
#[verifier::external_body]
fn json_object(pairs: &Vec<(String, String)>) -> (r: String)
    ensures
        r@ == json_object_text(param_texts(pairs@)),
{
    let mut object = serde_json::Map::new();
    for (k, v) in pairs.iter() {
        object.insert(k.clone(), serde_json::Value::String(v.clone()));
    }
    serde_json::Value::Object(object).to_string()
}

/// A first occurrence is unique.
proof fn lemma_first_unique(s: Seq<char>, p: Seq<char>, i: int, j: int)
    requires
        first_occurrence(s, p, i),
        first_occurrence(s, p, j),
    ensures
        i == j,
{
    if i < j {
        assert(!occurs_at(s, p, i));
    } else if j < i {
        assert(!occurs_at(s, p, j));
    }
}

/// `s` with the blocks from an `open` marker to the next `close` marker
/// removed, the first remaining one each time, until an `open` marker has no
/// `close` after it or none is left.
pub open spec fn strip_blocks(s: Seq<char>, open: Seq<char>, close: Seq<char>) -> Seq<char>
    decreases s.len(),
{
    if close.len() > 0 && exists|i: int| first_occurrence(s, open, i) {
        let i = choose|i: int| first_occurrence(s, open, i);
        if exists|j: int| first_occurrence(s.skip(i), close, j) {
            let j = choose|j: int| first_occurrence(s.skip(i), close, j);
            strip_blocks(s.take(i) + s.skip(i + j + close.len()), open, close)
        } else {
            s
        }
    } else {
        s
    }
}

/// The title of a page: the trimmed text between its first `<title>` and
/// the next `</title>`, or "Untitled Document".
pub open spec fn page_title(html: Seq<char>) -> Seq<char> {
    if exists|i: int| first_occurrence(html, "<title>"@, i) {
        let i = choose|i: int| first_occurrence(html, "<title>"@, i);
        let rest = html.skip(i + "<title>"@.len());
        if exists|j: int| first_occurrence(rest, "</title>"@, j) {
            trim(rest.take(choose|j: int| first_occurrence(rest, "</title>"@, j)))
        } else {
            "Untitled Document"@
        }
    } else {
        "Untitled Document"@
    }
}

/// The replaced text where the expression compiled, else the text.
pub open spec fn or_unchanged(replaced: Option<Seq<char>>, text: Seq<char>) -> Seq<char> {
    match replaced {
        Some(t) => t,
        None => text,
    }
}

/// The text of a page: scripts and then styles removed, every tag made a
/// space, every run of white space made one space, character references
/// decoded, and the result trimmed.
pub open spec fn page_text(html: Seq<char>) -> Seq<char> {
    let no_scripts = strip_blocks(html, "<script"@, "</script>"@);
    let no_styles = strip_blocks(no_scripts, "<style"@, "</style>"@);
    let spaced = or_unchanged(regex_replaced("<[^>]*>"@, no_styles, " "@), no_styles);
    let single = or_unchanged(regex_replaced("\\s+"@, spaced, " "@), spaced);
    trim(entities_decoded(single))
}

fn chars_range(v: &Vec<char>, a: usize, b: usize) -> (r: Vec<char>)
    requires
        a <= b <= v@.len(),
    ensures
        r@ == v@.subrange(a as int, b as int),
{
    let mut r: Vec<char> = Vec::new();
    let mut i = a;
    while i < b
        invariant
            a <= i <= b,
            b <= v@.len(),
            r@ == v@.subrange(a as int, i as int),
        decreases b - i,
    {
        r.push(v[i]);
        assert(v@.subrange(a as int, i + 1) =~= v@.subrange(a as int, i as int).push(v@[i as int]));
        i += 1;
    }
    r
}

fn strip_all_blocks(s: Vec<char>, open: &str, close: &str) -> (r: Vec<char>)
    requires
        close@.len() > 0,
    ensures
        r@ == strip_blocks(s@, open@, close@),
{
    let o = chars_of(open);
    let c = chars_of(close);
    let mut cur = s;
    loop
        invariant
            o@ == open@,
            c@ == close@,
            close@.len() > 0,
            strip_blocks(cur@, open@, close@) == strip_blocks(s@, open@, close@),
        decreases cur@.len(),
    {
        match find(cur.as_slice(), o.as_slice()) {
            None => {
                assert(!exists|i: int| first_occurrence(cur@, open@, i));
                return cur;
            },
            Some(i) => {
                proof {
                    assert forall|k: int| first_occurrence(cur@, open@, k) implies k == i by {
                        lemma_first_unique(cur@, open@, k, i as int);
                    }
                }
                let rest = chars_range(&cur, i, cur.len());
                assert(rest@ =~= cur@.skip(i as int));
                match find(rest.as_slice(), c.as_slice()) {
                    None => {
                        assert(!exists|j: int| first_occurrence(cur@.skip(i as int), close@, j));
                        return cur;
                    },
                    Some(j) => {
                        proof {
                            assert forall|k: int| first_occurrence(cur@.skip(i as int), close@, k) implies k == j by {
                                lemma_first_unique(cur@.skip(i as int), close@, k, j as int);
                            }
                        }
                        let end = i + j + c.len();
                        let mut next = chars_range(&cur, 0, i);
                        let tail = chars_range(&cur, end, cur.len());
                        let mut t: usize = 0;
                        let ghost head = next@;
                        while t < tail.len()
                            invariant
                                t <= tail@.len(),
                                next@ == head + tail@.take(t as int),
                            decreases tail@.len() - t,
                        {
                            next.push(tail[t]);
                            assert(tail@.take(t + 1) =~= tail@.take(t as int).push(tail@[t as int]));
                            t += 1;
                        }
                        assert(tail@.take(tail@.len() as int) =~= tail@);
                        assert(next@ =~= cur@.take(i as int) + cur@.skip(end as int));
                        cur = next;
                    },
                }
            },
        }
    }
}

fn page_title_of(h: &Vec<char>) -> (r: Vec<char>)
    ensures
        r@ == page_title(h@),
{
    let open = chars_of("<title>");
    let close = chars_of("</title>");
    match find(h.as_slice(), open.as_slice()) {
        Some(i) => {
            proof {
                assert(first_occurrence(h@, "<title>"@, i as int));
                assert forall|k: int| first_occurrence(h@, "<title>"@, k) implies k == i by {
                    lemma_first_unique(h@, "<title>"@, k, i as int);
                }
            }
            assert(occurs_at(h@, open@, i as int));
            let n = open.len();
            assert(i + n <= h.len());
            let start = i + n;
            let rest = chars_range(h, start, h.len());
            assert(rest@ =~= h@.skip(i + "<title>"@.len()));
            match find(rest.as_slice(), close.as_slice()) {
                Some(j) => {
                    proof {
                        assert(first_occurrence(rest@, "</title>"@, j as int));
                        assert forall|k: int| first_occurrence(rest@, "</title>"@, k) implies k == j by {
                            lemma_first_unique(rest@, "</title>"@, k, j as int);
                        }
                    }
                    let inner = chars_range(&rest, 0, j);
                    assert(inner@ =~= rest@.take(j as int));
                    let t = trim_chars(inner.as_slice());
                    proof {
                        let ci = choose|k: int| first_occurrence(h@, "<title>"@, k);
                        assert(ci == i);
                        let r2 = h@.skip(ci + "<title>"@.len());
                        assert(r2 == rest@);
                        let cj = choose|k: int| first_occurrence(r2, "</title>"@, k);
                        assert(cj == j);
                    }
                    t
                },
                None => {
                    assert(!exists|j: int| first_occurrence(rest@, "</title>"@, j));
                    let t = chars_of("Untitled Document");
                    assert(t@ == page_title(h@));
                    t
                },
            }
        },
        None => {
            assert(!exists|k: int| first_occurrence(h@, "<title>"@, k));
            let t = chars_of("Untitled Document");
            assert(t@ == page_title(h@));
            t
        },
    }
}

/// The title and the text of a page.
pub fn extract_content(html: &str) -> (r: (String, String))
    ensures
        r.0@ == page_title(html@),
        r.1@ == page_text(html@),
{
    let h = chars_of(html);
    let title_chars = page_title_of(&h);
    let title = string_of(title_chars.as_slice());
    proof {
        reveal_strlit("</script>");
        reveal_strlit("</style>");
    }
    let no_scripts = strip_all_blocks(h, "<script", "</script>");
    let no_styles = strip_all_blocks(no_scripts, "<style", "</style>");
    let plain = string_of(no_styles.as_slice());
    let spaced = match replace_all_matches("<[^>]*>", plain.as_str(), " ") {
        Some(t) => t,
        None => plain,
    };
    let single = match replace_all_matches("\\s+", spaced.as_str(), " ") {
        Some(t) => t,
        None => spaced,
    };
    let decoded = decode_entities(single.as_str());
    let dv = chars_of(decoded.as_str());
    let trimmed = trim_chars(dv.as_slice());
    (title, string_of(trimmed.as_slice()))
}

/// A page to bring into a collection.
#[derive(Debug)]
pub struct ScrapingRequest {
    pub url: String,
    pub collection_name: String,
    pub document_type: String,
    pub max_depth: Option<usize>,
    pub max_pages: Option<usize>,
}

/// What became of one page.
#[derive(Debug)]
pub struct ScrapingResult {
    pub url: String,
    pub title: String,
    pub content: String,
    pub document_id: String,
    pub success: bool,
    pub error: Option<String>,
}

/// Pages to bring into a collection.
#[derive(Debug)]
pub struct BatchScrapingRequest {
    pub urls: Vec<String>,
    pub collection_name: String,
    pub document_type: String,
    pub max_depth: Option<usize>,
    pub max_pages: Option<usize>,
}

/// What became of each page of a batch, with the successes and failures
/// counted.
#[derive(Debug)]
pub struct BatchScrapingResult {
    pub results: Vec<ScrapingResult>,
    pub success_count: usize,
    pub failure_count: usize,
}

/// A search of the stored documentation, with string filters on metadata.
#[derive(Debug)]
pub struct DocumentationSearchRequest {
    pub query: String,
    pub collection_name: String,
    pub n_results: usize,
    pub filter: Option<Vec<(String, String)>>,
}

/// The metadata stored with a page: from the web, of the requested type,
/// fetched at `timestamp`, from its address, with its title.
pub open spec fn page_metadata(request: ScrapingRequest, title: Seq<char>, timestamp: Seq<char>, m: DocumentMetadata) -> bool {
    &&& m.source@ == "web"@
    &&& m.document_type == request.document_type
    &&& m.language is None
    &&& m.timestamp@ == timestamp
    &&& m.file_path is None
    &&& m.url == Some(request.url)
    &&& m.title matches Some(t) && t@ == title
    &&& m.additional@.len() == 0
}

/// Stores a fetched page: its text is added to the requested collection
/// under a fresh `doc_` id, with the page's metadata; the result reports the
/// address, title, text and id.
pub fn scrape_documentation(
    chroma: &mut ChromaManager,
    request: &ScrapingRequest,
    html: &str,
    timestamp: &str,
) -> (r: Result<ScrapingResult, String>)
    requires
        old(chroma).wf(),
    ensures
        final(chroma).wf(),
        r is Ok,
        r matches Ok(res) ==> res.url == request.url && res.title@ == page_title(html@) && res.content@ == page_text(
            html@,
        ) && generated_id(res.document_id@) && res.success && res.error is None,
        r matches Ok(res) ==> exists|m: DocumentMetadata|
            page_metadata(*request, res.title@, timestamp@, m) && #[trigger] stored(
                old(chroma).collections@,
                final(chroma).collections@,
                request.collection_name@,
                with_documents(
                    docs_map(old(chroma).collections@, request.collection_name@),
                    seq![res.document_id],
                    seq![res.content],
                    seq![m],
                    1,
                    false,
                ),
            ),
        final(chroma).health_monitor == old(chroma).health_monitor,
{
    let (title, content) = extract_content(html);
    let document_id = fresh_document_id();
    let metadata = DocumentMetadata {
        source: owned("web"),
        document_type: request.document_type.clone(),
        language: None,
        timestamp: owned(timestamp),
        file_path: None,
        url: Some(request.url.clone()),
        title: Some(title.clone()),
        additional: String::new(),
    };
    let ghost m = metadata;
    let ids = vec![document_id.clone()];
    let documents = vec![content.clone()];
    let metadatas = vec![metadata];
    assert(ids@ =~= seq![document_id]);
    assert(documents@ =~= seq![content]);
    assert(metadatas@ =~= seq![m]);
    let _ = chroma.add_documents(request.collection_name.as_str(), documents, metadatas, Some(ids));
    proof {
        assert(page_metadata(*request, title@, timestamp@, m));
        assert(min3(1, 1, 1) == 1);
        assert(stored(
            old(chroma).collections@,
            chroma.collections@,
            request.collection_name@,
            with_documents(
                docs_map(old(chroma).collections@, request.collection_name@),
                seq![document_id],
                seq![content],
                seq![m],
                1,
                false,
            ),
        ));
    }
    Ok(ScrapingResult {
        url: request.url.clone(),
        title,
        content,
        document_id,
        success: true,
        error: None,
    })
}

impl ScrapingRequest {
    /// The request for page `i` of a batch.
    pub fn for_batch_page(batch: &BatchScrapingRequest, i: usize) -> (r: ScrapingRequest)
        requires
            i < batch.urls@.len(),
        ensures
            r.url == batch.urls@[i as int],
            r.collection_name == batch.collection_name,
            r.document_type == batch.document_type,
            r.max_depth == batch.max_depth,
            r.max_pages == batch.max_pages,
    {
        ScrapingRequest {
            url: batch.urls[i].clone(),
            collection_name: batch.collection_name.clone(),
            document_type: batch.document_type.clone(),
            max_depth: batch.max_depth,
            max_pages: batch.max_pages,
        }
    }
}

impl BatchScrapingResult {
    /// Nothing tallied yet.
    pub fn new() -> (r: Self)
        ensures
            r.results@.len() == 0,
            r.success_count == 0,
            r.failure_count == 0,
    {
        BatchScrapingResult { results: Vec::new(), success_count: 0, failure_count: 0 }
    }

    /// Tallies one page of the batch: a success is kept as it is; a failure
    /// is kept as the address with the error and nothing else.
    pub fn record(&mut self, url: &str, outcome: Result<ScrapingResult, String>)
        requires
            old(self).success_count < usize::MAX,
            old(self).failure_count < usize::MAX,
        ensures
            final(self).results@.drop_last() == old(self).results@,
            final(self).results@.len() == old(self).results@.len() + 1,
            outcome matches Ok(res) ==> final(self).results@.last() == res && final(self).success_count
                == old(self).success_count + 1 && final(self).failure_count == old(self).failure_count,
            outcome matches Err(e) ==> {
                let f = final(self).results@.last();
                &&& f.url@ == url@
                &&& f.title@.len() == 0
                &&& f.content@.len() == 0
                &&& f.document_id@.len() == 0
                &&& !f.success
                &&& f.error == Some(e)
                &&& final(self).failure_count == old(self).failure_count + 1
                &&& final(self).success_count == old(self).success_count
            },
    {
        match outcome {
            Ok(res) => {
                self.results.push(res);
                self.success_count = self.success_count + 1;
            },
            Err(e) => {
                self.results.push(
                    ScrapingResult {
                        url: owned(url),
                        title: String::new(),
                        content: String::new(),
                        document_id: String::new(),
                        success: false,
                        error: Some(e),
                    },
                );
                self.failure_count = self.failure_count + 1;
            },
        }
        assert(self.results@.drop_last() =~= old(self).results@);
    }
}

/// The engines a documentation search asks.
pub open spec fn documentation_engines() -> Seq<Seq<char>> {
    seq!["documentation"@, "github"@, "stackoverflow"@]
}

/// The categories a documentation search asks.
pub open spec fn documentation_categories() -> Seq<Seq<char>> {
    seq!["it"@, "programming"@]
}

/// The search that looks for documentation pages to bring in: the query on
/// the documentation engines and categories, with at most `max_results`
/// hits.
pub fn documentation_search_request(client: &SearXNGClient, query: &str, max_results: usize) -> (r: SearchRequest)
    ensures
        r.url@ == client.base_url@ + "/search"@,
        param_texts(r.params@) == search_params(
            query@,
            documentation_engines(),
            documentation_categories(),
            Some(max_results),
        ),
{
    let engines = vec![owned("documentation"), owned("github"), owned("stackoverflow")];
    let categories = vec![owned("it"), owned("programming")];
    assert(texts(engines@) =~= documentation_engines());
    assert(texts(categories@) =~= documentation_categories());
    client.search_request(query, Some(engines), Some(categories), Some(max_results))
}

/// The batch that brings in the pages found: their addresses in order, one
/// level deep, at most `max_results` pages.
pub fn batch_from_results(
    results: &Vec<SearchResult>,
    collection_name: &str,
    document_type: &str,
    max_results: usize,
) -> (r: BatchScrapingRequest)
    ensures
        r.urls@.len() == results@.len(),
        forall|i: int| 0 <= i < results@.len() ==> #[trigger] r.urls@[i] == results@[i].url,
        r.collection_name@ == collection_name@,
        r.document_type@ == document_type@,
        r.max_depth == Some(1usize),
        r.max_pages == Some(max_results),
{
    let mut urls: Vec<String> = Vec::new();
    let mut i: usize = 0;
    while i < results.len()
        invariant
            i <= results@.len(),
            urls@.len() == i,
            forall|k: int| 0 <= k < i ==> #[trigger] urls@[k] == results@[k].url,
        decreases results@.len() - i,
    {
        urls.push(results[i].url.clone());
        i += 1;
    }
    BatchScrapingRequest {
        urls,
        collection_name: owned(collection_name),
        document_type: owned(document_type),
        max_depth: Some(1),
        max_pages: Some(max_results),
    }
}

/// The filter text of a documentation search: the JSON object of its pairs.
pub open spec fn filter_text(filter: Option<Vec<(String, String)>>) -> Option<Seq<char>> {
    match filter {
        Some(p) => Some(json_object_text(param_texts(p@))),
        None => None,
    }
}

/// Searches the stored documentation: a query of the collection, answered
/// from the cache when it holds a live entry for the same query and filter.
pub fn search_documentation(
    chroma: &mut ChromaManager,
    request: &DocumentationSearchRequest,
    now_ms: u64,
) -> (r: Result<Vec<QueryHit>, String>)
    requires
        old(chroma).wf(),
    ensures
        final(chroma).wf(),
        final(chroma).health_monitor == old(chroma).health_monitor,
        query_outcome(
            *old(chroma),
            *final(chroma),
            request.collection_name@,
            request.query@,
            request.n_results,
            filter_text(request.filter),
            now_ms,
            r,
        ),
{
    let filter = match &request.filter {
        Some(pairs) => Some(json_object(pairs)),
        None => None,
    };
    let f = match &filter {
        Some(t) => Some(t.as_str()),
        None => None,
    };
    chroma.query(request.collection_name.as_str(), request.query.as_str(), request.n_results, f, now_ms)
}

} // verus!
