//! The model server's messages and the client's own state: where the server
//! is, and the models it has listed, by name.

use vstd::prelude::*;
use crate::keyed::StrMap;
use crate::text::{concat, owned};

verus! {

/// Details of a model as the server reports them.
#[derive(Debug)]
pub struct ModelDetails {
    pub parameter_size: Option<String>,
    pub quantization_level: Option<String>,
    pub format: Option<String>,
    pub family: Option<String>,
    pub families: Option<Vec<String>>,
}

/// A model the server has.
#[derive(Debug)]
pub struct ModelInfo {
    pub name: String,
    pub modified_at: String,
    pub size: u64,
    pub digest: String,
    pub details: Option<ModelDetails>,
}

/// The server's list of models.
#[derive(Debug)]
pub struct ModelResponse {
    pub models: Vec<ModelInfo>,
}

/// A request to complete a prompt. Sampling options are carried by the
/// caller with the request.
#[derive(Debug)]
pub struct GenerateRequest {
    pub model: String,
    pub prompt: String,
    pub stream: bool,
}

/// A piece of a completion; the last one is marked done.
#[derive(Debug)]
pub struct GenerateResponse {
    pub model: String,
    pub response: String,
    pub done: Option<bool>,
}

/// One message of a chat with the model.
#[derive(Debug)]
pub struct ChatMessage {
    pub role: String,
    pub content: String,
}

/// A chat request.
#[derive(Debug)]
pub struct ChatRequest {
    pub model: String,
    pub messages: Vec<ChatMessage>,
    pub stream: bool,
}

/// A piece of a chat answer; the last one is marked done.
#[derive(Debug)]
pub struct ChatResponse {
    pub model: String,
    pub message: ChatMessage,
    pub done: Option<bool>,
}

/// A request to embed a text.
#[derive(Debug)]
pub struct EmbeddingRequest {
    pub model: String,
    pub prompt: String,
}

impl ChatMessage {
    /// A copy of the message.
    pub fn duplicate(&self) -> (r: ChatMessage)
        ensures
            r == *self,
    {
        ChatMessage { role: self.role.clone(), content: self.content.clone() }
    }
}

fn copy_opt(s: &Option<String>) -> (r: Option<String>)
    ensures
        r == *s,
{
    match s {
        Some(t) => Some(t.clone()),
        None => None,
    }
}

impl ModelInfo {
    /// A copy of what identifies and sizes a model (its details as far as
    /// they are text; the family list is not copied).
    pub fn duplicate(&self) -> (r: ModelInfo)
        ensures
            model_copy(r, *self),
    {
        let details = match &self.details {
            Some(d) => Some(
                ModelDetails {
                    parameter_size: copy_opt(&d.parameter_size),
                    quantization_level: copy_opt(&d.quantization_level),
                    format: copy_opt(&d.format),
                    family: copy_opt(&d.family),
                    families: None,
                },
            ),
            None => None,
        };
        ModelInfo {
            name: self.name.clone(),
            modified_at: self.modified_at.clone(),
            size: self.size,
            digest: self.digest.clone(),
            details,
        }
    }
}

/// `r` is a copy of `m` as `ModelInfo::duplicate` makes it: the same name,
/// date, size and digest, and the same details but for the family list.
pub open spec fn model_copy(r: ModelInfo, m: ModelInfo) -> bool {
    &&& r.name == m.name
    &&& r.modified_at == m.modified_at
    &&& r.size == m.size
    &&& r.digest == m.digest
    &&& match (r.details, m.details) {
        (Some(a), Some(b)) => a.parameter_size == b.parameter_size && a.quantization_level == b.quantization_level
            && a.format == b.format && a.family == b.family && a.families is None,
        (None, None) => true,
        _ => false,
    }
}

/// The position of the last of the first `n` models named `k`, or -1.
pub open spec fn last_named(models: Seq<ModelInfo>, k: Seq<char>, n: nat) -> int
    decreases n,
{
    if n == 0 {
        -1
    } else if models[n - 1].name@ == k {
        n - 1
    } else {
        last_named(models, k, (n - 1) as nat)
    }
}

/// Whether a streamed piece ends the answer: only when it says so.
pub fn is_done(done: Option<bool>) -> (r: bool)
    ensures
        r == (done == Some(true)),
{
    match done {
        Some(d) => d,
        None => false,
    }
}

/// The address of the server when none is given.
pub open spec fn default_server() -> Seq<char> {
    "http://localhost:11434"@
}

/// The client's state: the server address and the models it has listed.
pub struct OllamaClient {
    pub base_url: String,
    pub models_cache: StrMap<ModelInfo>,
}

impl OllamaClient {
    /// The cache has distinct names.
    pub open spec fn wf(&self) -> bool {
        self.models_cache.wf()
    }

    /// A client for the given server, or the local default, with nothing
    /// cached.
    pub fn new(base_url: Option<String>) -> (r: Self)
        ensures
            r.wf(),
            r.base_url@ == match base_url {
                Some(u) => u@,
                None => default_server(),
            },
            r.models_cache@ == Map::<Seq<char>, ModelInfo>::empty(),
    {
        let base_url = match base_url {
            Some(u) => u,
            None => owned("http://localhost:11434"),
        };
        OllamaClient { base_url, models_cache: StrMap::new() }
    }

    /// Points the client at another server.
    pub fn set_base_url(&mut self, base_url: String)
        ensures
            final(self).base_url == base_url,
            final(self).models_cache == old(self).models_cache,
    {
        self.base_url = base_url;
    }

    /// The server address.
    pub fn get_base_url(&self) -> (r: &str)
        ensures
            r@ == self.base_url@,
    {
        self.base_url.as_str()
    }

    /// The address of an endpoint of the server: the base address followed
    /// by the endpoint's path.
    pub fn endpoint(&self, path: &str) -> (r: String)
        ensures
            r@ == self.base_url@ + path@,
    {
        concat(self.base_url.as_str(), path)
    }

    /// Remembers the listed models by name (a later one of the same name
    /// wins).
    pub fn cache_models(&mut self, models: &Vec<ModelInfo>)
        requires
            old(self).wf(),
        ensures
            final(self).wf(),
            final(self).base_url == old(self).base_url,
            forall|k: Seq<char>| #[trigger] final(self).models_cache@.contains_key(k) <==> (old(
                self,
            ).models_cache@.contains_key(k) || last_named(models@, k, models@.len()) >= 0),
            forall|k: Seq<char>| last_named(models@, k, models@.len()) >= 0 ==> model_copy(
                #[trigger] final(self).models_cache@[k],
                models@[last_named(models@, k, models@.len())],
            ),
            forall|k: Seq<char>| last_named(models@, k, models@.len()) < 0 && old(self).models_cache@.contains_key(k)
                ==> #[trigger] final(self).models_cache@[k] == old(self).models_cache@[k],
    {
        let mut i: usize = 0;
        while i < models.len()
            invariant
                self.wf(),
                self.base_url == old(self).base_url,
                i <= models@.len(),
                forall|k: Seq<char>| #[trigger] self.models_cache@.contains_key(k) <==> (old(
                    self,
                ).models_cache@.contains_key(k) || last_named(models@, k, i as nat) >= 0),
                forall|k: Seq<char>| last_named(models@, k, i as nat) >= 0 ==> model_copy(
                    #[trigger] self.models_cache@[k],
                    models@[last_named(models@, k, i as nat)],
                ),
                forall|k: Seq<char>| last_named(models@, k, i as nat) < 0 && old(self).models_cache@.contains_key(k)
                    ==> #[trigger] self.models_cache@[k] == old(self).models_cache@[k],
            decreases models@.len() - i,
        {
            let m = models[i].duplicate();
            let ghost nm = m.name@;
            self.models_cache.insert(models[i].name.clone(), m);
            proof {
                assert forall|k: Seq<char>| #[trigger] last_named(models@, k, (i + 1) as nat) == if k == nm {
                    i as int
                } else {
                    last_named(models@, k, i as nat)
                } by {}
            }
            i += 1;
        }
    }

    /// A copy of the cached model of that name, if any.
    pub fn cached_model(&self, name: &str) -> (r: Option<ModelInfo>)
        requires
            self.wf(),
        ensures
            r is Some <==> self.models_cache@.contains_key(name@),
            r matches Some(m) ==> model_copy(m, self.models_cache@[name@]),
    {
        match self.models_cache.get(name) {
            Some(m) => Some(m.duplicate()),
            None => None,
        }
    }
}

/// The first of the listed models with that name, if any.
pub fn find_model(models: Vec<ModelInfo>, name: &str) -> (r: Option<ModelInfo>)
    ensures
        r is Some <==> exists|i: int| 0 <= i < models@.len() && models@[i].name@ == name@,
        r matches Some(m) ==> exists|i: int|
            0 <= i < models@.len() && m == models@[i] && m.name@ == name@ && forall|j: int|
                0 <= j < i ==> models@[j].name@ != name@,
{
    let ghost m0 = models@;
    let mut i: usize = 0;
    while i < models.len()
        invariant
            m0 == models@,
            i <= m0.len(),
            forall|j: int| 0 <= j < i ==> m0[j].name@ != name@,
        decreases m0.len() - i,
    {
        if crate::text::str_equals(models[i].name.as_str(), name) {
            let mut v = models;
            let m = v.remove(i);
            assert(m == m0[i as int]);
            return Some(m);
        }
        i += 1;
    }
    None
}

} // verus!
