//! Documents of the retrieval store and what a query returns for them.

use vstd::prelude::*;

verus! {

/// Where a document came from and what it is. Any further fields are kept
/// together as the text of one JSON object.
#[derive(Debug)]
pub struct DocumentMetadata {
    pub source: String,
    pub document_type: String,
    pub language: Option<String>,
    pub timestamp: String,
    pub file_path: Option<String>,
    pub url: Option<String>,
    pub title: Option<String>,
    pub additional: String,
}

/// A copy of an optional text.
pub fn copy_opt(s: &Option<String>) -> (r: Option<String>)
    ensures
        r == *s,
{
    match s {
        Some(t) => Some(t.clone()),
        None => None,
    }
}

impl DocumentMetadata {
    /// A copy of the metadata.
    pub fn duplicate(&self) -> (r: DocumentMetadata)
        ensures
            r == *self,
    {
        DocumentMetadata {
            source: self.source.clone(),
            document_type: self.document_type.clone(),
            language: copy_opt(&self.language),
            timestamp: self.timestamp.clone(),
            file_path: copy_opt(&self.file_path),
            url: copy_opt(&self.url),
            title: copy_opt(&self.title),
            additional: self.additional.clone(),
        }
    }
}

/// A stored document. Whether an embedding was computed for it is recorded;
/// the embedding vectors themselves are kept by the caller.
#[derive(Debug)]
pub struct Document {
    pub id: String,
    pub content: String,
    pub metadata: DocumentMetadata,
    pub has_embedding: bool,
}

/// A document returned by a query: its text, metadata and id, and how many
/// of the query's keywords it contains out of how many there were. A
/// document fetched directly, not by a query, has both counts zero.
#[derive(Debug)]
pub struct QueryHit {
    pub document: String,
    pub metadata: DocumentMetadata,
    pub matches: usize,
    pub keyword_count: usize,
    pub id: String,
}

impl QueryHit {
    /// A copy of the hit.
    pub fn duplicate(&self) -> (r: QueryHit)
        ensures
            r == *self,
    {
        QueryHit {
            document: self.document.clone(),
            metadata: self.metadata.duplicate(),
            matches: self.matches,
            keyword_count: self.keyword_count,
            id: self.id.clone(),
        }
    }
}

/// A copy of a list of hits.
pub fn copy_hits(v: &Vec<QueryHit>) -> (r: Vec<QueryHit>)
    ensures
        r@ == v@,
{
    let mut r: Vec<QueryHit> = Vec::new();
    let mut i: usize = 0;
    while i < v.len()
        invariant
            i <= v@.len(),
            r@ == v@.take(i as int),
        decreases v@.len() - i,
    {
        r.push(v[i].duplicate());
        assert(v@.take(i + 1) =~= v@.take(i as int).push(v@[i as int]));
        i += 1;
    }
    assert(v@.take(v@.len() as int) =~= v@);
    r
}

} // verus!
