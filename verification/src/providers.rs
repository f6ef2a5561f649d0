//! The three back ends' own rules: the records of the models they offer, the
//! addresses and headers of the hosted ones, and how their replies and
//! streamed pieces are read into answers.

use vstd::prelude::*;
use crate::ai_clients::AIModel;
use crate::capability::{
    AIProvider, ModelCapability, ollama_capabilities,
    ollama_context, ollama_context_length, ollama_model_capabilities, openai_capabilities, openai_context,
    openai_context_length, openai_model_capabilities,
};
use crate::ollama;
use crate::text::{
    chars_of, concat, concat_parts, concat_views, contains, lowercase, matches_at, occurs_at, owned, split_lines,
    starts_with, str_contains, str_equals, str_starts_with, string_of, lines, trim, trim_chars,
};

verus! {

/// Token counts of one generation.
#[derive(Clone, Copy, Debug, PartialEq, Eq, Structural)]
pub struct TokenUsage {
    pub prompt_tokens: u32,
    pub completion_tokens: u32,
    pub total_tokens: u32,
}

/// A value of a reply's metadata.
#[derive(Debug)]
pub enum MetaValue {
    Text(String),
    Number(u64),
}

/// A generation's answer.
#[derive(Debug)]
pub struct AIResponse {
    pub content: String,
    pub model: String,
    pub provider: AIProvider,
    pub usage: Option<TokenUsage>,
    pub finish_reason: Option<String>,
    pub metadata: Vec<(String, MetaValue)>,
}

/// A piece of a streamed answer.
#[derive(Debug)]
pub struct StreamChunk {
    pub content: String,
    pub is_complete: bool,
    pub metadata: Vec<(String, MetaValue)>,
}

// ---------------------------------------------------------------------------
// Model records.

/// The record of a model the local server has: named by its name, with the
/// capabilities and context length its lowercased name suggests.
pub open spec fn is_ollama_model(m: AIModel, name: Seq<char>) -> bool {
    &&& m.id@ == name
    &&& m.name@ == name
    &&& m.provider == AIProvider::Ollama
    &&& m.capabilities@ == ollama_capabilities(lowercase(name))
    &&& m.context_length == ollama_context(lowercase(name))
    &&& m.is_available
    &&& m.description@ == "Ollama "@ + name + " model"@
}

/// The record of a model the local server listed.
pub fn ollama_model(model: &ollama::ModelInfo) -> (r: AIModel)
    ensures
        is_ollama_model(r, model.name@),
{
    let name = model.name.as_str();
    let parts = ["Ollama ", name, " model"];
    let description = concat_parts(&parts);
    proof { reveal_with_fuel(concat_views, 4); }
    AIModel {
        id: owned(name),
        name: owned(name),
        provider: AIProvider::Ollama,
        capabilities: ollama_model_capabilities(name),
        context_length: ollama_context_length(name),
        is_available: true,
        description,
    }
}

/// The records of the models the local server listed, in order.
pub fn ollama_models(models: &Vec<ollama::ModelInfo>) -> (r: Vec<AIModel>)
    ensures
        r@.len() == models@.len(),
        forall|i: int| 0 <= i < models@.len() ==> is_ollama_model(#[trigger] r@[i], models@[i].name@),
{
    let mut r: Vec<AIModel> = Vec::new();
    let mut i: usize = 0;
    while i < models.len()
        invariant
            i <= models@.len(),
            r@.len() == i,
            forall|k: int| 0 <= k < i ==> is_ollama_model(#[trigger] r@[k], models@[k].name@),
        decreases models@.len() - i,
    {
        r.push(ollama_model(&models[i]));
        i += 1;
    }
    r
}

/// The record of an OpenAI model, named by its id.
pub open spec fn is_openai_model(m: AIModel, id: Seq<char>) -> bool {
    &&& m.id@ == id
    &&& m.name@ == id
    &&& m.provider == AIProvider::OpenAI
    &&& m.capabilities@ == openai_capabilities(id)
    &&& m.context_length == openai_context(id)
    &&& m.is_available
    &&& m.description@ == "OpenAI "@ + id + " model"@
}

/// The record of an OpenAI model.
pub fn openai_model(id: &str) -> (r: AIModel)
    ensures
        is_openai_model(r, id@),
{
    let parts = ["OpenAI ", id, " model"];
    let description = concat_parts(&parts);
    proof { reveal_with_fuel(concat_views, 4); }
    AIModel {
        id: owned(id),
        name: owned(id),
        provider: AIProvider::OpenAI,
        capabilities: openai_model_capabilities(id),
        context_length: openai_context_length(id),
        is_available: true,
        description,
    }
}

/// An OpenAI model offered for chat: a "gpt-" model that is not an
/// embedding model.
pub open spec fn openai_chat_model(id: Seq<char>) -> bool {
    starts_with(id, "gpt-"@) && !contains(id, "embedding"@)
}

/// The ids among `ids` of chat models, in order.
pub open spec fn chat_model_ids(ids: Seq<Seq<char>>) -> Seq<Seq<char>>
    decreases ids.len(),
{
    if ids.len() == 0 {
        Seq::empty()
    } else if openai_chat_model(ids.last()) {
        chat_model_ids(ids.drop_last()).push(ids.last())
    } else {
        chat_model_ids(ids.drop_last())
    }
}

/// The records of the chat models among the models OpenAI listed, in
/// order.
pub fn openai_models(ids: &Vec<String>) -> (r: Vec<AIModel>)
    ensures
        r@.len() == chat_model_ids(ids@.map_values(|s: String| s@)).len(),
        forall|i: int| 0 <= i < r@.len() ==> is_openai_model(#[trigger] r@[i], chat_model_ids(
            ids@.map_values(|s: String| s@),
        )[i]),
{
    let ghost all = ids@.map_values(|s: String| s@);
    let mut r: Vec<AIModel> = Vec::new();
    let mut i: usize = 0;
    while i < ids.len()
        invariant
            i <= ids@.len(),
            all == ids@.map_values(|s: String| s@),
            r@.len() == chat_model_ids(all.take(i as int)).len(),
            forall|k: int| 0 <= k < r@.len() ==> is_openai_model(#[trigger] r@[k], chat_model_ids(all.take(i as int))[k]),
        decreases ids@.len() - i,
    {
        let id = ids[i].as_str();
        assert(all.take(i + 1).drop_last() =~= all.take(i as int));
        assert(all.take(i + 1).last() == id@);
        if str_starts_with(id, "gpt-") && !str_contains(id, "embedding") {
            r.push(openai_model(id));
        }
        i += 1;
    }
    assert(all.take(ids@.len() as int) =~= all);
    r
}

// ---------------------------------------------------------------------------
// The hosted back ends' clients.

/// The address of the OpenAI API.
pub open spec fn openai_default_url() -> Seq<char> {
    "https://api.openai.com/v1"@
}

/// The address of the Anthropic API.
pub open spec fn anthropic_default_url() -> Seq<char> {
    "https://api.anthropic.com/v1"@
}

/// The texts of a list of header pairs.
pub open spec fn pair_texts(p: Seq<(String, String)>) -> Seq<(Seq<char>, Seq<char>)> {
    p.map_values(|e: (String, String)| (e.0@, e.1@))
}

/// The client of the OpenAI API: its key, its address, and whether it is in
/// use (it is when the key is not empty, unless switched).
pub struct OpenAIClient {
    pub api_key: String,
    pub base_url: String,
    pub enabled: bool,
}

impl OpenAIClient {
    /// A client of the OpenAI API with this key, in use when the key is not
    /// empty.
    pub fn new(api_key: String) -> (r: Self)
        ensures
            r.api_key == api_key,
            r.base_url@ == openai_default_url(),
            r.enabled == (api_key@.len() > 0),
    {
        let enabled = !api_key.as_str().is_empty();
        OpenAIClient { api_key, base_url: owned("https://api.openai.com/v1"), enabled }
    }

    /// A client of an OpenAI-compatible API at another address.
    pub fn new_with_base_url(api_key: String, base_url: String) -> (r: Self)
        ensures
            r.api_key == api_key,
            r.base_url == base_url,
            r.enabled == (api_key@.len() > 0),
    {
        let mut c = Self::new(api_key);
        c.base_url = base_url;
        c
    }

    /// Switches the client on or off.
    pub fn set_enabled(&mut self, enabled: bool)
        ensures
            final(self).enabled == enabled,
            final(self).api_key == old(self).api_key,
            final(self).base_url == old(self).base_url,
    {
        self.enabled = enabled;
    }

    /// The headers sent with each request: the bearer key and the JSON
    /// content type.
    pub fn headers(&self) -> (r: Vec<(String, String)>)
        ensures
            pair_texts(r@) == seq![
                ("Authorization"@, "Bearer "@ + self.api_key@),
                ("Content-Type"@, "application/json"@),
            ],
    {
        let r = vec![
            (owned("Authorization"), concat("Bearer ", self.api_key.as_str())),
            (owned("Content-Type"), owned("application/json")),
        ];
        assert(pair_texts(r@) =~= seq![
            ("Authorization"@, "Bearer "@ + self.api_key@),
            ("Content-Type"@, "application/json"@),
        ]);
        r
    }

    /// The address of an endpoint of the API.
    pub fn endpoint(&self, path: &str) -> (r: String)
        ensures
            r@ == self.base_url@ + path@,
    {
        concat(self.base_url.as_str(), path)
    }

    /// Whether a request may be made: the error when the client is not in use.
    pub fn ensure_enabled(&self) -> (r: Result<(), String>)
        ensures
            self.enabled ==> r is Ok,
            !self.enabled ==> (r matches Err(e) && e@ == "OpenAI provider is not enabled"@),
    {
        if self.enabled {
            Ok(())
        } else {
            Err(owned("OpenAI provider is not enabled"))
        }
    }
}

/// The client of the Anthropic API: its key, its address, and whether it is
/// in use (it is when the key is not empty, unless switched).
pub struct AnthropicClient {
    pub api_key: String,
    pub base_url: String,
    pub enabled: bool,
}

impl AnthropicClient {
    /// A client of the Anthropic API with this key, in use when the key is
    /// not empty.
    pub fn new(api_key: String) -> (r: Self)
        ensures
            r.api_key == api_key,
            r.base_url@ == anthropic_default_url(),
            r.enabled == (api_key@.len() > 0),
    {
        let enabled = !api_key.as_str().is_empty();
        AnthropicClient { api_key, base_url: owned("https://api.anthropic.com/v1"), enabled }
    }

    /// Switches the client on or off.
    pub fn set_enabled(&mut self, enabled: bool)
        ensures
            final(self).enabled == enabled,
            final(self).api_key == old(self).api_key,
            final(self).base_url == old(self).base_url,
    {
        self.enabled = enabled;
    }

    /// The headers sent with each request: the key, the JSON content type
    /// and the API version.
    pub fn headers(&self) -> (r: Vec<(String, String)>)
        ensures
            pair_texts(r@) == seq![
                ("x-api-key"@, self.api_key@),
                ("Content-Type"@, "application/json"@),
                ("anthropic-version"@, "2023-06-01"@),
            ],
    {
        let r = vec![
            (owned("x-api-key"), self.api_key.clone()),
            (owned("Content-Type"), owned("application/json")),
            (owned("anthropic-version"), owned("2023-06-01")),
        ];
        assert(pair_texts(r@) =~= seq![
            ("x-api-key"@, self.api_key@),
            ("Content-Type"@, "application/json"@),
            ("anthropic-version"@, "2023-06-01"@),
        ]);
        r
    }

    /// The address of an endpoint of the API.
    pub fn endpoint(&self, path: &str) -> (r: String)
        ensures
            r@ == self.base_url@ + path@,
    {
        concat(self.base_url.as_str(), path)
    }

    /// Whether a request may be made: the error when the client is not in use.
    pub fn ensure_enabled(&self) -> (r: Result<(), String>)
        ensures
            self.enabled ==> r is Ok,
            !self.enabled ==> (r matches Err(e) && e@ == "Anthropic provider is not enabled"@),
    {
        if self.enabled {
            Ok(())
        } else {
            Err(owned("Anthropic provider is not enabled"))
        }
    }
}

/// The most tokens an Anthropic generation may produce: as asked, else 4096.
pub fn anthropic_max_tokens(max_tokens: Option<u32>) -> (r: u32)
    ensures
        r == match max_tokens {
            Some(n) => n,
            None => 4096,
        },
{
    match max_tokens {
        Some(n) => n,
        None => 4096,
    }
}

// ---------------------------------------------------------------------------
// Replies.

/// One choice of an OpenAI reply, as read from it.
#[derive(Debug)]
pub struct OpenAIChoice {
    pub message_content: Option<String>,
    pub delta_content: Option<String>,
    pub finish_reason: Option<String>,
}

/// An OpenAI reply, as read from it.
#[derive(Debug)]
pub struct OpenAIReply {
    pub id: String,
    pub created: u64,
    pub choices: Vec<OpenAIChoice>,
    pub usage: Option<TokenUsage>,
}

/// The answer of an OpenAI reply: the first choice's message (else
/// nothing) and its finish reason, the usage, and the reply's id and
/// creation time.
pub fn openai_response(model_id: &str, reply: OpenAIReply) -> (r: AIResponse)
    ensures
        r.content@ == if reply.choices@.len() > 0 {
            match reply.choices@[0].message_content {
                Some(m) => m@,
                None => Seq::<char>::empty(),
            }
        } else {
            Seq::<char>::empty()
        },
        r.finish_reason == if reply.choices@.len() > 0 {
            reply.choices@[0].finish_reason
        } else {
            None::<String>
        },
        r.model@ == model_id@,
        r.provider == AIProvider::OpenAI,
        r.usage == reply.usage,
        r.metadata@.len() == 2,
        r.metadata@[0].0@ == "id"@ && r.metadata@[0].1 == MetaValue::Text(reply.id),
        r.metadata@[1].0@ == "created"@ && r.metadata@[1].1 == MetaValue::Number(reply.created),
{
    let OpenAIReply { id, created, choices, usage } = reply;
    let (content, finish_reason) = if choices.len() > 0 {
        let c = &choices[0];
        (
            match &c.message_content {
                Some(m) => m.clone(),
                None => String::new(),
            },
            match &c.finish_reason {
                Some(f) => Some(f.clone()),
                None => None,
            },
        )
    } else {
        (String::new(), None)
    };
    let metadata = vec![(owned("id"), MetaValue::Text(id)), (owned("created"), MetaValue::Number(created))];
    AIResponse { content, model: owned(model_id), provider: AIProvider::OpenAI, usage, finish_reason, metadata }
}

/// A Anthropic reply, as read from it.
#[derive(Debug)]
pub struct AnthropicReply {
    pub id: String,
    pub response_type: String,
    pub content_texts: Vec<String>,
    pub stop_reason: Option<String>,
    pub stop_sequence: Option<String>,
    pub input_tokens: u32,
    pub output_tokens: u32,
}

/// The answer of an Anthropic reply: its first text (else nothing), the usage
/// with both counts and their sum, the stop reason, and the reply's id,
/// type and stop sequence (where there is one).
pub fn anthropic_response(model_id: &str, reply: AnthropicReply) -> (r: AIResponse)
    requires
        reply.input_tokens + reply.output_tokens <= u32::MAX,
    ensures
        r.content@ == if reply.content_texts@.len() > 0 {
            reply.content_texts@[0]@
        } else {
            Seq::<char>::empty()
        },
        r.model@ == model_id@,
        r.provider == AIProvider::Anthropic,
        r.usage == Some(
            TokenUsage {
                prompt_tokens: reply.input_tokens,
                completion_tokens: reply.output_tokens,
                total_tokens: (reply.input_tokens + reply.output_tokens) as u32,
            },
        ),
        r.finish_reason == reply.stop_reason,
        r.metadata@.len() == if reply.stop_sequence is Some { 3int } else { 2int },
        r.metadata@[0].0@ == "id"@ && r.metadata@[0].1 == MetaValue::Text(reply.id),
        r.metadata@[1].0@ == "type"@ && r.metadata@[1].1 == MetaValue::Text(reply.response_type),
        reply.stop_sequence matches Some(s) ==> r.metadata@[2].0@ == "stop_sequence"@ && r.metadata@[2].1
            == MetaValue::Text(s),
{
    let AnthropicReply { id, response_type, content_texts, stop_reason, stop_sequence, input_tokens, output_tokens } =
        reply;
    let content = if content_texts.len() > 0 {
        content_texts[0].clone()
    } else {
        String::new()
    };
    let usage = TokenUsage {
        prompt_tokens: input_tokens,
        completion_tokens: output_tokens,
        total_tokens: input_tokens + output_tokens,
    };
    let mut metadata = vec![(owned("id"), MetaValue::Text(id)), (owned("type"), MetaValue::Text(response_type))];
    match stop_sequence {
        Some(s) => {
            metadata.push((owned("stop_sequence"), MetaValue::Text(s)));
        },
        None => {},
    }
    AIResponse {
        content,
        model: owned(model_id),
        provider: AIProvider::Anthropic,
        usage: Some(usage),
        finish_reason: stop_reason,
        metadata,
    }
}

/// The answer of the local server: the completion, finished normally,
/// without usage, marked as coming from the local server.
pub fn ollama_response(model_id: &str, completion: String) -> (r: AIResponse)
    ensures
        r.content == completion,
        r.model@ == model_id@,
        r.provider == AIProvider::Ollama,
        r.usage is None,
        r.finish_reason matches Some(f) && f@ == "stop"@,
        r.metadata@.len() == 1,
        r.metadata@[0].0@ == "provider"@,
        r.metadata@[0].1 matches MetaValue::Text(t) && t@ == "ollama"@,
{
    AIResponse {
        content: completion,
        model: owned(model_id),
        provider: AIProvider::Ollama,
        usage: None,
        finish_reason: Some(owned("stop")),
        metadata: vec![(owned("provider"), MetaValue::Text(owned("ollama")))],
    }
}

// ---------------------------------------------------------------------------
// Streamed pieces.

/// The payloads of the event-stream lines that carry data ("data: " and
/// the payload), in order.
pub open spec fn data_payloads(ls: Seq<Seq<char>>) -> Seq<Seq<char>>
    decreases ls.len(),
{
    if ls.len() == 0 {
        Seq::empty()
    } else if starts_with(ls.last(), "data: "@) {
        data_payloads(ls.drop_last()).push(ls.last().skip("data: "@.len() as int))
    } else {
        data_payloads(ls.drop_last())
    }
}

fn skip_chars(v: &Vec<char>, n: usize) -> (r: String)
    requires
        n <= v@.len(),
    ensures
        r@ == v@.skip(n as int),
{
    let mut r: Vec<char> = Vec::new();
    let mut i = n;
    while i < v.len()
        invariant
            n <= i <= v@.len(),
            r@ == v@.subrange(n as int, i as int),
        decreases v@.len() - i,
    {
        r.push(v[i]);
        assert(v@.subrange(n as int, i + 1) =~= v@.subrange(n as int, i as int).push(v@[i as int]));
        i += 1;
    }
    assert(r@ =~= v@.skip(n as int));
    string_of(r.as_slice())
}

/// The data payloads of a piece of an event stream, line by line.
pub fn sse_payloads(text: &str) -> (r: Vec<String>)
    ensures
        r@.map_values(|s: String| s@) == data_payloads(lines(text@)),
{
    let cs = chars_of(text);
    let ls = split_lines(cs.as_slice());
    let prefix = chars_of("data: ");
    let ghost all = lines(text@);
    let mut r: Vec<String> = Vec::new();
    let mut i: usize = 0;
    while i < ls.len()
        invariant
            i <= ls@.len(),
            ls@.len() == all.len(),
            forall|k: int| 0 <= k < ls@.len() ==> #[trigger] ls@[k]@ == all[k],
            all == lines(text@),
            prefix@ == "data: "@,
            r@.map_values(|s: String| s@) == data_payloads(all.take(i as int)),
        decreases ls@.len() - i,
    {
        let line = &ls[i];
        assert(all.take(i + 1).drop_last() =~= all.take(i as int));
        assert(all.take(i + 1).last() == line@);
        if matches_at(line.as_slice(), prefix.as_slice(), 0) {
            let payload = skip_chars(line, prefix.len());
            let ghost before = r@;
            r.push(payload);
            assert(r@.map_values(|s: String| s@) =~= before.map_values(|s: String| s@).push(payload@));
        }
        i += 1;
    }
    assert(all.take(ls@.len() as int) =~= all);
    r
}

/// A payload of an OpenAI stream, as read from it.
#[derive(Debug)]
pub struct OpenAIDelta {
    pub id: String,
    pub content: Option<String>,
    pub finished: bool,
}

/// The piece an OpenAI stream gives for a batch of payloads: at the first
/// payload that is the end marker, an empty finishing piece; at the first
/// one read (`Some` in `read`, where the caller read each payload), its
/// text, whether it finished, and its id; an empty piece when there is
/// neither.
pub open spec fn openai_piece_at(payloads: Seq<String>, read: Seq<Option<OpenAIDelta>>, i: int) -> bool {
    &&& 0 <= i < payloads.len()
    &&& (payloads[i]@ == "[DONE]"@ || read[i] is Some)
    &&& forall|k: int| #![trigger read[k]] 0 <= k < i ==> !(payloads[k]@ == "[DONE]"@ || read[k] is Some)
}

/// The piece is given at one payload at most.
proof fn lemma_piece_unique(payloads: Seq<String>, read: Seq<Option<OpenAIDelta>>, i: int, j: int)
    requires
        openai_piece_at(payloads, read, i),
        openai_piece_at(payloads, read, j),
    ensures
        i == j,
{
    if i < j {
        assert(!(payloads[i]@ == "[DONE]"@ || read[i] is Some));
    } else if j < i {
        assert(!(payloads[j]@ == "[DONE]"@ || read[j] is Some));
    }
}

/// The piece of an OpenAI stream for a batch of payloads.
pub fn openai_chunk(payloads: &Vec<String>, read: Vec<Option<OpenAIDelta>>) -> (r: StreamChunk)
    requires
        read@.len() == payloads@.len(),
    ensures
        forall|i: int| openai_piece_at(payloads@, read@, i) && payloads@[i]@ == "[DONE]"@ ==> r.content@.len() == 0
            && r.is_complete && r.metadata@.len() == 0,
        forall|i: int| openai_piece_at(payloads@, read@, i) && payloads@[i]@ != "[DONE]"@ ==> (read@[i] matches Some(
            d,
        ) && r.content@ == match d.content {
            Some(c) => c@,
            None => Seq::<char>::empty(),
        } && r.is_complete == d.finished && r.metadata@.len() == 1 && r.metadata@[0].0@ == "id"@ && r.metadata@[0].1
            == MetaValue::Text(d.id)),
        (forall|i: int| !openai_piece_at(payloads@, read@, i)) ==> r.content@.len() == 0 && !r.is_complete
            && r.metadata@.len() == 0,
{
    let ghost p = payloads@;
    let ghost read0 = read@;
    let mut rest = read;
    let mut i: usize = 0;
    while i < payloads.len()
        invariant
            i <= payloads@.len(),
            read0.len() == payloads@.len(),
            p == payloads@,
            rest@ == read0.skip(i as int),
            read0 == read@,
            forall|k: int| #![trigger read0[k]] 0 <= k < i ==> !(p[k]@ == "[DONE]"@ || read0[k] is Some),
        decreases payloads@.len() - i,
    {
        let d = rest.remove(0);
        assert(d == read0[i as int]);
        assert(rest@ =~= read0.skip(i + 1));
        if str_equals(payloads[i].as_str(), "[DONE]") {
            proof {
                assert(openai_piece_at(payloads@, read@, i as int));
                assert forall|j: int| openai_piece_at(payloads@, read@, j) implies j == i by {
                    lemma_piece_unique(payloads@, read@, i as int, j);
                }
            }
            return StreamChunk { content: String::new(), is_complete: true, metadata: Vec::new() };
        }
        match d {
            Some(delta) => {
                proof {
                    assert(openai_piece_at(payloads@, read@, i as int));
                    assert forall|j: int| openai_piece_at(payloads@, read@, j) implies j == i by {
                        lemma_piece_unique(payloads@, read@, i as int, j);
                    }
                }
                let OpenAIDelta { id, content, finished } = delta;
                let content = match content {
                    Some(c) => c,
                    None => String::new(),
                };
                return StreamChunk {
                    content,
                    is_complete: finished,
                    metadata: vec![(owned("id"), MetaValue::Text(id))],
                };
            },
            None => {},
        }
        i += 1;
    }
    StreamChunk { content: String::new(), is_complete: false, metadata: Vec::new() }
}

/// A payload of an Anthropic stream, as read from it: the event type, the
/// delta's text and whether the delta gave a stop reason (where there is a
/// delta), and the id of the message it carries (where there is one).
#[derive(Debug)]
pub struct AnthropicEvent {
    pub event_type: String,
    pub delta_text: Option<String>,
    pub delta_stopped: bool,
    pub message_id: Option<String>,
}

/// The text of an Anthropic stream piece after the read payloads: the text of
/// the last content delta that has one, else nothing.
pub open spec fn streamed_text(events: Seq<Option<AnthropicEvent>>) -> Option<Seq<char>>
    decreases events.len(),
{
    if events.len() == 0 {
        None
    } else {
        match events.last() {
            Some(e) => if e.event_type@ == "content_block_delta"@ && e.delta_text is Some {
                match e.delta_text {
                    Some(t) => Some(t@),
                    None => None,
                }
            } else {
                streamed_text(events.drop_last())
            },
            None => streamed_text(events.drop_last()),
        }
    }
}

/// Whether an Anthropic stream piece finishes the answer: some content delta
/// gave a stop reason, or the message stopped.
pub open spec fn streamed_finished(events: Seq<Option<AnthropicEvent>>) -> bool {
    exists|i: int| 0 <= i < events.len() && #[trigger] finishes(events[i])
}

/// A read payload finishes the answer: a content delta with a stop reason,
/// or the message's stop.
pub open spec fn finishes(ev: Option<AnthropicEvent>) -> bool {
    match ev {
        Some(e) => (e.event_type@ == "content_block_delta"@ && e.delta_stopped) || e.event_type@ == "message_stop"@,
        None => false,
    }
}

/// The id of the last message carried by the read payloads, if any.
pub open spec fn streamed_message_id(events: Seq<Option<AnthropicEvent>>) -> Option<String>
    decreases events.len(),
{
    if events.len() == 0 {
        None
    } else {
        match events.last() {
            Some(e) => if e.message_id is Some {
                e.message_id
            } else {
                streamed_message_id(events.drop_last())
            },
            None => streamed_message_id(events.drop_last()),
        }
    }
}

/// The piece of an Anthropic stream for a batch of payloads (`None` where a
/// payload could not be read): the last content delta's text, whether the
/// answer finished, and the last message id.
pub fn anthropic_chunk(events: Vec<Option<AnthropicEvent>>) -> (r: StreamChunk)
    ensures
        r.content@ == match streamed_text(events@) {
            Some(t) => t,
            None => Seq::<char>::empty(),
        },
        r.is_complete == streamed_finished(events@),
        match streamed_message_id(events@) {
            Some(id) => r.metadata@.len() == 1 && r.metadata@[0].0@ == "id"@ && r.metadata@[0].1 == MetaValue::Text(
                id,
            ),
            None => r.metadata@.len() == 0,
        },
{
    let ghost all = events@;
    let mut rest = events;
    let mut content = String::new();
    let mut is_complete = false;
    let mut message_id: Option<String> = None;
    let mut i: usize = 0;
    let n = rest.len();
    while rest.len() > 0
        invariant
            i <= all.len(),
            n == all.len(),
            rest@ == all.skip(i as int),
            content@ == match streamed_text(all.take(i as int)) {
                Some(t) => t,
                None => Seq::<char>::empty(),
            },
            is_complete == streamed_finished(all.take(i as int)),
            message_id == streamed_message_id(all.take(i as int)),
        decreases rest@.len(),
    {
        let ev = rest.remove(0);
        assert(ev == all[i as int]);
        assert(rest@ =~= all.skip(i + 1));
        let ghost prev = all.take(i as int);
        let ghost next = all.take(i + 1);
        assert(next.drop_last() =~= prev);
        assert(next.last() == ev);
        match ev {
            Some(e) => {
                let is_delta = str_equals(e.event_type.as_str(), "content_block_delta");
                let is_stop = str_equals(e.event_type.as_str(), "message_stop");
                let AnthropicEvent { event_type, delta_text, delta_stopped, message_id: mid } = e;
                if is_delta {
                    match delta_text {
                        Some(t) => {
                            content = t;
                        },
                        None => {},
                    }
                    if delta_stopped {
                        is_complete = true;
                    }
                }
                if is_stop {
                    is_complete = true;
                }
                match mid {
                    Some(m) => {
                        message_id = Some(m);
                    },
                    None => {},
                }
                proof {
                    assert(streamed_finished(next) == (streamed_finished(prev) || finishes(next[i as int]))) by {
                        if streamed_finished(prev) {
                            let k = choose|k: int| 0 <= k < prev.len() && #[trigger] finishes(prev[k]);
                            assert(next[k] == prev[k]);
                        }
                        if streamed_finished(next) {
                            let k = choose|k: int| 0 <= k < next.len() && #[trigger] finishes(next[k]);
                            if k < i {
                                assert(prev[k] == next[k]);
                            }
                        }
                    }
                }
            },
            None => {
                proof {
                    assert(streamed_finished(next) == streamed_finished(prev)) by {
                        if streamed_finished(prev) {
                            let k = choose|k: int| 0 <= k < prev.len() && #[trigger] finishes(prev[k]);
                            assert(next[k] == prev[k]);
                        }
                        if streamed_finished(next) {
                            let k = choose|k: int| 0 <= k < next.len() && #[trigger] finishes(next[k]);
                            assert(prev[k] == next[k]);
                        }
                    }
                }
            },
        }
        i += 1;
    }
    assert(all.take(i as int) =~= all);
    let metadata = match message_id {
        Some(id) => vec![(owned("id"), MetaValue::Text(id))],
        None => Vec::new(),
    };
    StreamChunk { content, is_complete, metadata }
}

/// The piece the local server's stream gives for a token: the token, finished
/// when it is blank or reports `"done":true`, marked as coming from the
/// local server.
pub fn ollama_chunk(token: &str) -> (r: StreamChunk)
    ensures
        r.content@ == token@,
        r.is_complete == (trim(token@).len() == 0 || contains(token@, "\"done\":true"@)),
        r.metadata@.len() == 1,
        r.metadata@[0].0@ == "provider"@,
        r.metadata@[0].1 matches MetaValue::Text(t) && t@ == "ollama"@,
{
    let cs = chars_of(token);
    let trimmed = trim_chars(cs.as_slice());
    let is_complete = trimmed.len() == 0 || str_contains(token, "\"done\":true");
    StreamChunk {
        content: owned(token),
        is_complete,
        metadata: vec![(owned("provider"), MetaValue::Text(owned("ollama")))],
    }
}

} // verus!
