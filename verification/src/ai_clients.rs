//! Several AI back ends behind one manager: the models they offer, which
//! model a task goes to, and the configuration that says which back ends are
//! in use.

use vstd::prelude::*;
use crate::capability::{AIProvider, ModelCapability, classify_prompt_capability, prompt_capability};
use crate::keyed::{StrMap, texts};
use crate::random::new_uuid;
use crate::text::{concat, concat_parts, concat_views, lowercase, owned};

verus! {

/// A model offered by one of the back ends.
#[derive(Debug)]
pub struct AIModel {
    pub id: String,
    pub name: String,
    pub provider: AIProvider,
    pub capabilities: Vec<ModelCapability>,
    pub context_length: u32,
    pub is_available: bool,
    pub description: String,
}

/// The model is available and can take tasks of capability `c`.
pub open spec fn suits(m: AIModel, c: ModelCapability) -> bool {
    m.is_available && m.capabilities@.contains(c)
}

fn has_capability(caps: &Vec<ModelCapability>, c: ModelCapability) -> (r: bool)
    ensures
        r == caps@.contains(c),
{
    let mut i: usize = 0;
    while i < caps.len()
        invariant
            i <= caps@.len(),
            forall|j: int| 0 <= j < i ==> caps@[j] != c,
        decreases caps@.len() - i,
    {
        if caps[i] == c {
            assert(caps@[i as int] == c);
            return true;
        }
        i += 1;
    }
    false
}

fn model_suits(m: &AIModel, c: ModelCapability) -> (r: bool)
    ensures
        r == suits(*m, c),
{
    m.is_available && has_capability(&m.capabilities, c)
}

/// The name of a back end, as it is shown.
pub open spec fn provider_name(p: AIProvider) -> Seq<char> {
    match p {
        AIProvider::Ollama => "Ollama"@,
        AIProvider::OpenAI => "OpenAI"@,
        AIProvider::Anthropic => "Anthropic"@,
    }
}

/// The name of a back end.
pub fn provider_label(p: AIProvider) -> (r: String)
    ensures
        r@ == provider_name(p),
{
    match p {
        AIProvider::Ollama => owned("Ollama"),
        AIProvider::OpenAI => owned("OpenAI"),
        AIProvider::Anthropic => owned("Anthropic"),
    }
}

/// The name of a capability, as it is shown.
pub open spec fn capability_name(c: ModelCapability) -> Seq<char> {
    match c {
        ModelCapability::CodeGeneration => "CodeGeneration"@,
        ModelCapability::CodeExplanation => "CodeExplanation"@,
        ModelCapability::Debugging => "Debugging"@,
        ModelCapability::Documentation => "Documentation"@,
        ModelCapability::Refactoring => "Refactoring"@,
        ModelCapability::Testing => "Testing"@,
        ModelCapability::Architecture => "Architecture"@,
        ModelCapability::GeneralChat => "GeneralChat"@,
        ModelCapability::Translation => "Translation"@,
        ModelCapability::Analysis => "Analysis"@,
    }
}

/// The name of a capability.
pub fn capability_label(c: ModelCapability) -> (r: String)
    ensures
        r@ == capability_name(c),
{
    match c {
        ModelCapability::CodeGeneration => owned("CodeGeneration"),
        ModelCapability::CodeExplanation => owned("CodeExplanation"),
        ModelCapability::Debugging => owned("Debugging"),
        ModelCapability::Documentation => owned("Documentation"),
        ModelCapability::Refactoring => owned("Refactoring"),
        ModelCapability::Testing => owned("Testing"),
        ModelCapability::Architecture => owned("Architecture"),
        ModelCapability::GeneralChat => owned("GeneralChat"),
        ModelCapability::Translation => owned("Translation"),
        ModelCapability::Analysis => owned("Analysis"),
    }
}

/// Every capability, in the order they are listed.
pub open spec fn all_capabilities() -> Seq<ModelCapability> {
    seq![
        ModelCapability::CodeGeneration,
        ModelCapability::CodeExplanation,
        ModelCapability::Debugging,
        ModelCapability::Documentation,
        ModelCapability::Refactoring,
        ModelCapability::Testing,
        ModelCapability::Architecture,
        ModelCapability::GeneralChat,
        ModelCapability::Translation,
        ModelCapability::Analysis,
    ]
}

/// The names of every capability, in order.
pub fn get_model_capabilities() -> (r: Vec<String>)
    ensures
        texts(r@) == all_capabilities().map_values(|c: ModelCapability| capability_name(c)),
{
    let all = [
        ModelCapability::CodeGeneration,
        ModelCapability::CodeExplanation,
        ModelCapability::Debugging,
        ModelCapability::Documentation,
        ModelCapability::Refactoring,
        ModelCapability::Testing,
        ModelCapability::Architecture,
        ModelCapability::GeneralChat,
        ModelCapability::Translation,
        ModelCapability::Analysis,
    ];
    assert(all@ =~= all_capabilities());
    let mut r: Vec<String> = Vec::new();
    let mut i: usize = 0;
    while i < 10
        invariant
            i <= 10,
            all@ == all_capabilities(),
            texts(r@) == all_capabilities().take(i as int).map_values(|c: ModelCapability| capability_name(c)),
        decreases 10 - i,
    {
        r.push(capability_label(all[i]));
        assert(all_capabilities().take(i + 1) =~= all_capabilities().take(i as int).push(all@[i as int]));
        assert(texts(r@) =~= texts(r@.drop_last()).push(r@.last()@));
        assert(all_capabilities().take(i + 1).map_values(|c: ModelCapability| capability_name(c))
            =~= all_capabilities().take(i as int).map_values(|c: ModelCapability| capability_name(c)).push(
            capability_name(all@[i as int])));
        i += 1;
    }
    assert(all_capabilities().take(10) =~= all_capabilities());
    r
}

/// The names of the supported back ends, in order.
pub fn get_supported_providers() -> (r: Vec<String>)
    ensures
        texts(r@) == seq!["Ollama"@, "OpenAI"@, "Anthropic"@],
{
    let r = vec![owned("Ollama"), owned("OpenAI"), owned("Anthropic")];
    assert(texts(r@) =~= seq!["Ollama"@, "OpenAI"@, "Anthropic"@]);
    r
}

/// The name of the capability a prompt asks for.
pub fn classify_prompt(prompt: &str) -> (r: String)
    ensures
        r@ == capability_name(prompt_capability(lowercase(prompt@))),
{
    capability_label(classify_prompt_capability(prompt))
}

/// The routing table has an entry for capability `c`.
pub open spec fn has_route(r: Seq<(ModelCapability, Vec<String>)>, c: ModelCapability) -> bool {
    exists|i: int| 0 <= i < r.len() && r[i].0 == c
}

/// The models preferred for capability `c`: those of its entry, or none.
pub open spec fn preferred_ids(r: Seq<(ModelCapability, Vec<String>)>, c: ModelCapability) -> Seq<Seq<char>> {
    if has_route(r, c) {
        texts(r[choose|i: int| 0 <= i < r.len() && r[i].0 == c].1@)
    } else {
        Seq::empty()
    }
}

/// No capability has two entries.
pub open spec fn routes_distinct(r: Seq<(ModelCapability, Vec<String>)>) -> bool {
    forall|i: int, j: int| 0 <= i < r.len() && 0 <= j < r.len() && i != j ==> r[i].0 != r[j].0
}

/// With distinct entries, the preferred models of the capability at entry
/// `i` are those of that entry.
proof fn lemma_route_at(r: Seq<(ModelCapability, Vec<String>)>, i: int)
    requires
        routes_distinct(r),
        0 <= i < r.len(),
    ensures
        preferred_ids(r, r[i].0) == texts(r[i].1@),
{
    assert(has_route(r, r[i].0));
}

/// Position `j` of the preferred list is the first whose model is cached
/// and suits `c`.
pub open spec fn first_preferred(pref: Seq<Seq<char>>, cache: Map<Seq<char>, AIModel>, c: ModelCapability, j: int) -> bool {
    &&& 0 <= j < pref.len()
    &&& cache.contains_key(pref[j])
    &&& suits(cache[pref[j]], c)
    &&& forall|k: int| 0 <= k < j ==> !(cache.contains_key(pref[k]) && suits(#[trigger] cache[pref[k]], c))
}

/// Some cached model suits `c`.
pub open spec fn some_model_suits(cache: Map<Seq<char>, AIModel>, c: ModelCapability) -> bool {
    exists|k: Seq<char>| cache.contains_key(k) && suits(#[trigger] cache[k], c)
}

/// The cache after the models were stored one after the other, each under
/// its identifier.
pub open spec fn cache_after(m: Map<Seq<char>, AIModel>, models: Seq<AIModel>) -> Map<Seq<char>, AIModel>
    decreases models.len(),
{
    if models.len() == 0 {
        m
    } else {
        cache_after(m, models.drop_last()).insert(models.last().id@, models.last())
    }
}

/// What a manager says of one back end's health.
#[derive(Debug)]
pub struct ProviderStatus {
    pub healthy: bool,
    pub model_count: usize,
    pub last_checked: String,
}

/// The health of each registered back end, under its name.
#[derive(Debug)]
pub struct ProviderHealthResponse {
    pub providers: Vec<(String, ProviderStatus)>,
}

/// The number of models that come from back end `p`.
pub open spec fn models_from(models: Seq<AIModel>, p: AIProvider) -> nat
    decreases models.len(),
{
    if models.len() == 0 {
        0
    } else {
        models_from(models.drop_last(), p) + if models.last().provider == p { 1nat } else { 0nat }
    }
}

/// The back ends behind one manager: which are registered, the models they
/// have listed (under their identifiers), the back end used by default, and
/// the models preferred for each capability.
pub struct AIClientManager {
    pub registered: Vec<AIProvider>,
    pub model_cache: StrMap<AIModel>,
    pub default_provider: AIProvider,
    pub task_routing: Vec<(ModelCapability, Vec<String>)>,
}

impl AIClientManager {
    /// Each back end is registered once, each model sits under its own
    /// identifier, and each capability has one routing entry at most.
    pub open spec fn wf(&self) -> bool {
        &&& self.registered@.no_duplicates()
        &&& self.model_cache.wf()
        &&& forall|k: Seq<char>| #[trigger] self.model_cache@.contains_key(k) ==> self.model_cache@[k].id@ == k
        &&& routes_distinct(self.task_routing@)
    }

    /// The models preferred for capability `c`.
    pub open spec fn preferred(&self, c: ModelCapability) -> Seq<Seq<char>> {
        preferred_ids(self.task_routing@, c)
    }

    /// A manager with nothing registered, nothing listed and no routing,
    /// defaulting to the local server.
    pub fn new() -> (r: Self)
        ensures
            r.wf(),
            r.registered@ == Seq::<AIProvider>::empty(),
            r.model_cache@ == Map::<Seq<char>, AIModel>::empty(),
            r.default_provider == AIProvider::Ollama,
            forall|c: ModelCapability| r.preferred(c) == Seq::<Seq<char>>::empty(),
            r.model_cache.keys() == Seq::<Seq<char>>::empty(),
            r.task_routing@.len() == 0,
    {
        AIClientManager {
            registered: Vec::new(),
            model_cache: StrMap::new(),
            default_provider: AIProvider::Ollama,
            task_routing: Vec::new(),
        }
    }

    /// Registers a back end (once).
    pub fn register_provider(&mut self, provider: AIProvider)
        requires
            old(self).wf(),
        ensures
            final(self).wf(),
            forall|p: AIProvider| final(self).registered@.contains(p) <==> (old(self).registered@.contains(p) || p == provider),
            final(self).model_cache == old(self).model_cache,
            final(self).default_provider == old(self).default_provider,
            final(self).task_routing == old(self).task_routing,
    {
        if self.is_registered(provider) {
            return;
        }
        let ghost r0 = self.registered@;
        self.registered.push(provider);
        proof {
            broadcast use vstd::seq_lib::group_seq_properties;
            assert(self.registered@ == r0.push(provider));
            assert(self.registered@.no_duplicates()) by {
                assert forall|i: int, j: int| 0 <= i < self.registered@.len() && 0 <= j < self.registered@.len() && i != j
                    implies self.registered@[i] != self.registered@[j] by {
                    if i < r0.len() && j < r0.len() {
                    } else if i < r0.len() {
                        assert(r0.contains(r0[i]));
                    } else {
                        assert(r0.contains(r0[j]));
                    }
                }
            }
        }
    }

    /// Whether a back end is registered.
    pub fn is_registered(&self, provider: AIProvider) -> (r: bool)
        ensures
            r == self.registered@.contains(provider),
    {
        let mut i: usize = 0;
        while i < self.registered.len()
            invariant
                i <= self.registered@.len(),
                forall|j: int| 0 <= j < i ==> self.registered@[j] != provider,
            decreases self.registered@.len() - i,
        {
            if self.registered[i] == provider {
                assert(self.registered@[i as int] == provider);
                return true;
            }
            i += 1;
        }
        false
    }

    /// Makes another back end the default.
    pub fn set_default_provider(&mut self, provider: AIProvider)
        ensures
            final(self).default_provider == provider,
            final(self).registered == old(self).registered,
            final(self).model_cache == old(self).model_cache,
            final(self).task_routing == old(self).task_routing,
    {
        self.default_provider = provider;
    }

    /// Stores listed models, each under its identifier (a later one of the
    /// same identifier wins).
    pub fn cache_models(&mut self, models: Vec<AIModel>)
        requires
            old(self).wf(),
        ensures
            final(self).wf(),
            final(self).model_cache@ == cache_after(old(self).model_cache@, models@),
            final(self).registered == old(self).registered,
            final(self).default_provider == old(self).default_provider,
            final(self).task_routing == old(self).task_routing,
    {
        let ghost all = models@;
        let n = models.len();
        let mut rest = models;
        let mut i: usize = 0;
        while rest.len() > 0
            invariant
                i <= all.len(),
                all.len() == n,
                rest@ == all.skip(i as int),
                self.wf(),
                self.model_cache@ == cache_after(old(self).model_cache@, all.take(i as int)),
                self.registered == old(self).registered,
                self.default_provider == old(self).default_provider,
                self.task_routing == old(self).task_routing,
            decreases rest@.len(),
        {
            let m = rest.remove(0);
            assert(m == all[i as int]);
            let id = m.id.clone();
            self.model_cache.insert(id, m);
            assert(all.take(i + 1).drop_last() =~= all.take(i as int));
            assert(all.skip(i + 1) =~= all.skip(i as int).remove(0));
            i += 1;
        }
        assert(all.take(i as int) =~= all);
    }

    /// The model listed under an identifier.
    pub fn get_model(&self, model_id: &str) -> (r: Option<&AIModel>)
        requires
            self.wf(),
        ensures
            match r {
                Some(m) => self.model_cache@.contains_key(model_id@) && *m == self.model_cache@[model_id@],
                None => !self.model_cache@.contains_key(model_id@),
            },
    {
        self.model_cache.get(model_id)
    }

    /// Every listed model, in the order they were first listed.
    pub fn get_cached_models(&self) -> (r: Vec<&AIModel>)
        requires
            self.wf(),
        ensures
            r@.len() == self.model_cache.values().len(),
            forall|i: int| 0 <= i < r@.len() ==> *(#[trigger] r@[i]) == self.model_cache.values()[i],
    {
        let mut r: Vec<&AIModel> = Vec::new();
        let n = self.model_cache.len();
        proof { self.model_cache.lemma_view(); }
        let mut i: usize = 0;
        while i < n
            invariant
                i <= n,
                n == self.model_cache.keys().len(),
                self.model_cache.keys().len() == self.model_cache.values().len(),
                self.wf(),
                r@.len() == i,
                forall|k: int| 0 <= k < i ==> *(#[trigger] r@[k]) == self.model_cache.values()[k],
            decreases n - i,
        {
            let (_, m) = self.model_cache.entry_at(i);
            r.push(m);
            i += 1;
        }
        r
    }

    /// Prefers these models, in this order, for capability `c`.
    pub fn configure_task_routing(&mut self, capability: ModelCapability, preferred_models: Vec<String>)
        requires
            old(self).wf(),
        ensures
            final(self).wf(),
            final(self).preferred(capability) == texts(preferred_models@),
            forall|d: ModelCapability| d != capability ==> final(self).preferred(d) == old(self).preferred(d),
            final(self).registered == old(self).registered,
            final(self).model_cache == old(self).model_cache,
            final(self).default_provider == old(self).default_provider,
    {
        let ghost r0 = self.task_routing@;
        let mut i: usize = 0;
        while i < self.task_routing.len()
            invariant
                i <= self.task_routing@.len(),
                self.task_routing@ == r0,
                self.wf(),
                self.registered == old(self).registered,
                self.model_cache == old(self).model_cache,
                self.default_provider == old(self).default_provider,
                r0 == old(self).task_routing@,
                forall|j: int| 0 <= j < i ==> r0[j].0 != capability,
            decreases self.task_routing@.len() - i,
        {
            if self.task_routing[i].0 == capability {
                self.task_routing.set(i, (capability, preferred_models));
                proof {
                    let r1 = self.task_routing@;
                    assert(r1 == r0.update(i as int, (capability, preferred_models)));
                    assert(routes_distinct(r1)) by {
                        assert forall|a: int, b: int| 0 <= a < r1.len() && 0 <= b < r1.len() && a != b
                            implies r1[a].0 != r1[b].0 by {
                            assert(r0[a].0 != r0[b].0);
                        }
                    }
                    lemma_route_at(r1, i as int);
                    assert forall|d: ModelCapability| d != capability implies preferred_ids(r1, d) == preferred_ids(r0, d) by {
                        if has_route(r0, d) {
                            let j = choose|j: int| 0 <= j < r0.len() && r0[j].0 == d;
                            assert(r1[j].0 == d);
                            lemma_route_at(r0, j);
                            lemma_route_at(r1, j);
                        }
                        if has_route(r1, d) {
                            let j = choose|j: int| 0 <= j < r1.len() && r1[j].0 == d;
                            assert(r0[j].0 == d);
                        }
                    }
                }
                return;
            }
            i += 1;
        }
        self.task_routing.push((capability, preferred_models));
        proof {
            let r1 = self.task_routing@;
            assert(r1 == r0.push((capability, preferred_models)));
            assert(routes_distinct(r1)) by {
                assert forall|a: int, b: int| 0 <= a < r1.len() && 0 <= b < r1.len() && a != b
                    implies r1[a].0 != r1[b].0 by {
                    if a < r0.len() && b < r0.len() {
                        assert(r0[a].0 != r0[b].0);
                    }
                }
            }
            lemma_route_at(r1, r0.len() as int);
            assert forall|d: ModelCapability| d != capability implies preferred_ids(r1, d) == preferred_ids(r0, d) by {
                if has_route(r0, d) {
                    let j = choose|j: int| 0 <= j < r0.len() && r0[j].0 == d;
                    assert(r1[j].0 == d);
                    lemma_route_at(r0, j);
                    lemma_route_at(r1, j);
                }
                if has_route(r1, d) {
                    let j = choose|j: int| 0 <= j < r1.len() && r1[j].0 == d;
                    assert(r0[j].0 == d);
                }
            }
        }
    }

    fn routed_ids(&self, capability: ModelCapability) -> (r: Option<&Vec<String>>)
        requires
            self.wf(),
        ensures
            match r {
                Some(v) => texts(v@) == self.preferred(capability),
                None => self.preferred(capability) == Seq::<Seq<char>>::empty(),
            },
    {
        let mut i: usize = 0;
        while i < self.task_routing.len()
            invariant
                i <= self.task_routing@.len(),
                self.wf(),
                forall|j: int| 0 <= j < i ==> self.task_routing@[j].0 != capability,
            decreases self.task_routing@.len() - i,
        {
            if self.task_routing[i].0 == capability {
                proof { lemma_route_at(self.task_routing@, i as int); }
                return Some(&self.task_routing[i].1);
            }
            i += 1;
        }
        None
    }

    /// The model a task of capability `c` goes to: the first preferred model
    /// that is listed, available and capable; else some listed model that is
    /// available and capable; else none.
    pub fn get_best_model_for_task(&self, capability: ModelCapability) -> (r: Option<&AIModel>)
        requires
            self.wf(),
        ensures
            r is None <==> !some_model_suits(self.model_cache@, capability),
            r matches Some(m) ==> suits(*m, capability) && self.model_cache@.contains_key(m.id@)
                && self.model_cache@[m.id@] == *m,
            forall|j: int| first_preferred(self.preferred(capability), self.model_cache@, capability, j)
                ==> (r matches Some(m) && *m == self.model_cache@[self.preferred(capability)[j]]),
    {
        let ghost pref = self.preferred(capability);
        let ghost cache = self.model_cache@;
        match self.routed_ids(capability) {
            Some(ids) => {
                let mut i: usize = 0;
                while i < ids.len()
                    invariant
                        i <= ids@.len(),
                        texts(ids@) == pref,
                        pref == self.preferred(capability),
                        self.wf(),
                        cache == self.model_cache@,
                        forall|k: int| 0 <= k < i ==> !(cache.contains_key(pref[k]) && suits(#[trigger] cache[pref[k]], capability)),
                    decreases ids@.len() - i,
                {
                    assert(pref[i as int] == ids@[i as int]@);
                    match self.model_cache.get(ids[i].as_str()) {
                        Some(m) => {
                            if model_suits(m, capability) {
                                proof {
                                    assert(first_preferred(pref, cache, capability, i as int));
                                    assert forall|j: int| first_preferred(pref, cache, capability, j) implies j == i by {
                                        if j < i {
                                        } else if j > i {
                                            assert(cache.contains_key(pref[i as int]) && suits(cache[pref[i as int]], capability));
                                        }
                                    }
                                    assert(suits(cache[ids@[i as int]@], capability));
                                }
                                return Some(m);
                            }
                        },
                        None => {},
                    }
                    i += 1;
                }
                proof {
                    assert forall|j: int| !first_preferred(pref, cache, capability, j) by {
                        if 0 <= j < pref.len() {
                            assert(!(cache.contains_key(pref[j]) && suits(cache[pref[j]], capability)));
                        }
                    }
                }
            },
            None => {},
        }
        let n = self.model_cache.len();
        proof { self.model_cache.lemma_view(); }
        let mut i: usize = 0;
        while i < n
            invariant
                i <= n,
                n == self.model_cache.keys().len(),
                self.model_cache.keys().len() == self.model_cache.values().len(),
                self.wf(),
                cache == self.model_cache@,
                pref == self.preferred(capability),
                forall|j: int| first_preferred(pref, cache, capability, j) ==> false,
                forall|k: int| 0 <= k < i ==> !suits(#[trigger] self.model_cache.values()[k], capability),
            decreases n - i,
        {
            let (_, m) = self.model_cache.entry_at(i);
            if model_suits(m, capability) {
                return Some(m);
            }
            i += 1;
        }
        proof {
            self.model_cache.lemma_view();
            assert forall|k: Seq<char>| cache.contains_key(k) implies !suits(#[trigger] cache[k], capability) by {
                assert(self.model_cache.keys().contains(k));
                let p = choose|p: int| 0 <= p < self.model_cache.keys().len() && self.model_cache.keys()[p] == k;
                assert(cache[self.model_cache.keys()[p]] == self.model_cache.values()[p]);
            }
        }
        None
    }

    /// The back end that serves a model: an error when the model is not
    /// listed or its back end is not registered.
    pub fn provider_for_model(&self, model_id: &str) -> (r: Result<AIProvider, String>)
        requires
            self.wf(),
        ensures
            !self.model_cache@.contains_key(model_id@) ==> (r matches Err(e) && e@ == "Model "@ + model_id@
                + " not found"@),
            self.model_cache@.contains_key(model_id@) && !self.registered@.contains(
                self.model_cache@[model_id@].provider,
            ) ==> (r matches Err(e) && e@ == "Provider "@ + provider_name(self.model_cache@[model_id@].provider)
                + " not available"@),
            self.model_cache@.contains_key(model_id@) && self.registered@.contains(
                self.model_cache@[model_id@].provider,
            ) ==> r == Ok::<AIProvider, String>(self.model_cache@[model_id@].provider),
    {
        match self.model_cache.get(model_id) {
            None => {
                let parts = ["Model ", model_id, " not found"];
                let e = concat_parts(&parts);
                proof { reveal_with_fuel(concat_views, 4); }
                Err(e)
            },
            Some(m) => {
                if self.is_registered(m.provider) {
                    Ok(m.provider)
                } else {
                    let name = provider_label(m.provider);
                    let parts = ["Provider ", name.as_str(), " not available"];
                    let e = concat_parts(&parts);
                    proof { reveal_with_fuel(concat_views, 4); }
                    Err(e)
                }
            },
        }
    }

    /// The model and back end that a task of capability `c` goes to: the
    /// best model for it and its back end; an error when no listed model
    /// suits the task or when the back end of the chosen model is not
    /// registered.
    pub fn smart_target(&self, capability: ModelCapability) -> (r: Result<(String, AIProvider), String>)
        requires
            self.wf(),
        ensures
            !some_model_suits(self.model_cache@, capability) ==> (r matches Err(e) && e@
                == "No suitable model found for the requested capability"@),
            r matches Ok((id, p)) ==> self.model_cache@.contains_key(id@) && suits(self.model_cache@[id@], capability)
                && p == self.model_cache@[id@].provider && self.registered@.contains(p),
            forall|j: int| first_preferred(self.preferred(capability), self.model_cache@, capability, j) ==> ({
                let m = self.model_cache@[self.preferred(capability)[j]];
                if self.registered@.contains(m.provider) {
                    r matches Ok((id, p)) && id@ == m.id@ && p == m.provider
                } else {
                    r matches Err(e) && e@ == "Provider "@ + provider_name(m.provider) + " not available"@
                }
            }),
    {
        match self.get_best_model_for_task(capability) {
            None => Err(owned("No suitable model found for the requested capability")),
            Some(m) => {
                match self.provider_for_model(m.id.as_str()) {
                    Ok(p) => Ok((m.id.clone(), p)),
                    Err(e) => Err(e),
                }
            },
        }
    }

    /// The model and back end a generation goes to: the named model, or the
    /// best model for the capability.
    pub fn resolve_target(&self, target: &GenerationTarget) -> (r: Result<(String, AIProvider), String>)
        requires
            self.wf(),
        ensures
            *target matches GenerationTarget::Model(id) ==> match self.provider_for_model_spec(id@) {
                Ok(p) => r matches Ok((i, q)) && i@ == id@ && q == p,
                Err(e) => r matches Err(f) && f@ == e,
            },
            *target matches GenerationTarget::Capability(c) ==> (!some_model_suits(self.model_cache@, c) ==> (
            r matches Err(e) && e@ == "No suitable model found for the requested capability"@)),
            *target matches GenerationTarget::Capability(c) ==> (r matches Ok((id, p)) ==> self.model_cache@.contains_key(
                id@) && suits(self.model_cache@[id@], c) && p == self.model_cache@[id@].provider
                && self.registered@.contains(p)),
    {
        match target {
            GenerationTarget::Model(id) => match self.provider_for_model(id.as_str()) {
                Ok(p) => Ok((id.clone(), p)),
                Err(e) => Err(e),
            },
            GenerationTarget::Capability(c) => self.smart_target(*c),
        }
    }

    /// What looking up the back end of a model gives, as plain values.
    pub open spec fn provider_for_model_spec(&self, id: Seq<char>) -> Result<AIProvider, Seq<char>> {
        if !self.model_cache@.contains_key(id) {
            Err("Model "@ + id + " not found"@)
        } else if !self.registered@.contains(self.model_cache@[id].provider) {
            Err("Provider "@ + provider_name(self.model_cache@[id].provider) + " not available"@)
        } else {
            Ok(self.model_cache@[id].provider)
        }
    }

    /// A listed model, or the error that it is not listed.
    pub fn model_info(&self, model_id: &str) -> (r: Result<&AIModel, String>)
        requires
            self.wf(),
        ensures
            self.model_cache@.contains_key(model_id@) ==> (r matches Ok(m) && *m == self.model_cache@[model_id@]),
            !self.model_cache@.contains_key(model_id@) ==> (r matches Err(e) && e@ == "Model "@ + model_id@
                + " not found"@),
    {
        match self.get_model(model_id) {
            Some(m) => Ok(m),
            None => {
                let parts = ["Model ", model_id, " not found"];
                let e = concat_parts(&parts);
                proof { reveal_with_fuel(concat_views, 4); }
                Err(e)
            },
        }
    }

    fn count_models_from(&self, provider: AIProvider) -> (r: usize)
        requires
            self.wf(),
        ensures
            r == models_from(self.model_cache.values(), provider),
    {
        let n = self.model_cache.len();
        proof { self.model_cache.lemma_view(); }
        let mut count: usize = 0;
        let mut i: usize = 0;
        while i < n
            invariant
                i <= n,
                n == self.model_cache.keys().len(),
                self.model_cache.keys().len() == self.model_cache.values().len(),
                self.wf(),
                count == models_from(self.model_cache.values().take(i as int), provider),
                count <= i,
            decreases n - i,
        {
            let (_, m) = self.model_cache.entry_at(i);
            assert(self.model_cache.values().take(i + 1).drop_last() =~= self.model_cache.values().take(i as int));
            if m.provider == provider {
                count = count + 1;
            }
            i += 1;
        }
        assert(self.model_cache.values().take(n as int) =~= self.model_cache.values());
        count
    }

    /// The health report of the back ends: for each back end checked, under
    /// its name, whether it is healthy, how many listed models come from it,
    /// and when it was checked.
    pub fn provider_health(&self, health: &Vec<(AIProvider, bool)>, checked_at: &str) -> (r: ProviderHealthResponse)
        requires
            self.wf(),
        ensures
            r.providers@.len() == health@.len(),
            forall|i: int| 0 <= i < health@.len() ==> {
                let e = #[trigger] r.providers@[i];
                &&& e.0@ == provider_name(health@[i].0)
                &&& e.1.healthy == health@[i].1
                &&& e.1.model_count == models_from(self.model_cache.values(), health@[i].0)
                &&& e.1.last_checked@ == checked_at@
            },
    {
        let mut providers: Vec<(String, ProviderStatus)> = Vec::new();
        let mut i: usize = 0;
        while i < health.len()
            invariant
                i <= health@.len(),
                self.wf(),
                providers@.len() == i,
                forall|k: int| 0 <= k < i ==> {
                    let e = #[trigger] providers@[k];
                    &&& e.0@ == provider_name(health@[k].0)
                    &&& e.1.healthy == health@[k].1
                    &&& e.1.model_count == models_from(self.model_cache.values(), health@[k].0)
                    &&& e.1.last_checked@ == checked_at@
                },
            decreases health@.len() - i,
        {
            let (p, healthy) = health[i];
            let status = ProviderStatus {
                healthy,
                model_count: self.count_models_from(p),
                last_checked: owned(checked_at),
            };
            providers.push((provider_label(p), status));
            i += 1;
        }
        ProviderHealthResponse { providers }
    }
}

/// What a generation goes to: a named model, or the best model for a
/// capability.
#[derive(Debug)]
pub enum GenerationTarget {
    Model(String),
    Capability(ModelCapability),
}

/// Where a generation request goes: the named model if one is named; else
/// the capability asked for, where it is one (`Some(Some(..))`), or the
/// error for a capability name that is none (`Some(None)`); else the
/// capability the prompt asks for.
pub fn generation_target(
    prompt: &str,
    model_id: Option<String>,
    capability: Option<Option<ModelCapability>>,
) -> (r: Result<GenerationTarget, String>)
    ensures
        model_id matches Some(id) ==> r == Ok::<GenerationTarget, String>(GenerationTarget::Model(id)),
        model_id is None ==> (capability matches Some(Some(c)) ==> r == Ok::<GenerationTarget, String>(
            GenerationTarget::Capability(c),
        )),
        model_id is None ==> (capability matches Some(None) ==> (r matches Err(e) && e@
            == "Invalid capability specified"@)),
        model_id is None && capability is None ==> r == Ok::<GenerationTarget, String>(
            GenerationTarget::Capability(prompt_capability(lowercase(prompt@))),
        ),
{
    match model_id {
        Some(id) => Ok(GenerationTarget::Model(id)),
        None => match capability {
            Some(Some(c)) => Ok(GenerationTarget::Capability(c)),
            Some(None) => Err(owned("Invalid capability specified")),
            None => Ok(GenerationTarget::Capability(classify_prompt_capability(prompt))),
        },
    }
}

/// A fresh identifier for a streaming session: "stream_session_" and a
/// random UUID.
pub fn stream_session_id() -> (r: String)
    ensures
        r@.len() >= 15,
        r@.subrange(0, 15) == "stream_session_"@,
{
    let id = new_uuid();
    let r = concat("stream_session_", id.as_str());
    proof {
        reveal_strlit("stream_session_");
        assert(r@.subrange(0, 15) =~= "stream_session_"@);
    }
    r
}

/// The multi-back-end configuration: the default back end, the keys of the
/// hosted back ends, the preferred model for capability names, and the back
/// ends enabled.
#[derive(Debug)]
pub struct MultiAIConfig {
    pub default_provider: AIProvider,
    pub openai_api_key: Option<String>,
    pub anthropic_api_key: Option<String>,
    pub task_routing: Vec<(String, String)>,
    pub enabled_providers: Vec<AIProvider>,
}

impl Default for MultiAIConfig {
    /// The local server by default and alone enabled, no keys, no routing.
    fn default() -> (r: Self)
        ensures
            r.default_provider == AIProvider::Ollama,
            r.openai_api_key is None,
            r.anthropic_api_key is None,
            r.task_routing@.len() == 0,
            r.enabled_providers@ == seq![AIProvider::Ollama],
    {
        MultiAIConfig {
            default_provider: AIProvider::Ollama,
            openai_api_key: None,
            anthropic_api_key: None,
            task_routing: Vec::new(),
            enabled_providers: vec![AIProvider::Ollama],
        }
    }
}

/// A key is given and not empty.
pub open spec fn key_given(key: Option<String>) -> bool {
    key matches Some(k) && k@.len() > 0
}

/// The back ends a configuration brings up: always the local server, and
/// each hosted one whose key is given.
pub open spec fn providers_for(config: MultiAIConfig) -> Seq<AIProvider> {
    seq![AIProvider::Ollama] + (if key_given(config.openai_api_key) {
        seq![AIProvider::OpenAI]
    } else {
        Seq::empty()
    }) + (if key_given(config.anthropic_api_key) {
        seq![AIProvider::Anthropic]
    } else {
        Seq::empty()
    })
}

fn key_present(key: &Option<String>) -> (r: bool)
    ensures
        r == key_given(*key),
{
    match key {
        Some(k) => !k.as_str().is_empty(),
        None => false,
    }
}

/// The back ends to bring up for a configuration, in order.
pub fn providers_to_register(config: &MultiAIConfig) -> (r: Vec<AIProvider>)
    ensures
        r@ == providers_for(*config),
{
    let mut r: Vec<AIProvider> = vec![AIProvider::Ollama];
    if key_present(&config.openai_api_key) {
        r.push(AIProvider::OpenAI);
    }
    if key_present(&config.anthropic_api_key) {
        r.push(AIProvider::Anthropic);
    }
    assert(r@ =~= providers_for(*config));
    r
}

/// The preferred models of capability `c` after the routes were applied one
/// after the other: the model of the last route for `c`, or `before`.
pub open spec fn routed_after(routes: Seq<(ModelCapability, String)>, c: ModelCapability, before: Seq<Seq<char>>) -> Seq<Seq<char>>
    decreases routes.len(),
{
    if routes.len() == 0 {
        before
    } else if routes.last().0 == c {
        seq![routes.last().1@]
    } else {
        routed_after(routes.drop_last(), c, before)
    }
}

/// The multi-back-end state: the manager and the configuration in force.
pub struct MultiAIManager {
    pub client_manager: AIClientManager,
    pub config: MultiAIConfig,
}

impl MultiAIManager {
    /// The state before any configuration: an empty manager and the default
    /// configuration.
    pub fn new() -> (r: Self)
        ensures
            r.client_manager.wf(),
            r.client_manager.registered@ == Seq::<AIProvider>::empty(),
            r.client_manager.model_cache@ == Map::<Seq<char>, AIModel>::empty(),
            r.client_manager.default_provider == AIProvider::Ollama,
            r.config.default_provider == AIProvider::Ollama,
            r.config.openai_api_key is None,
            r.config.anthropic_api_key is None,
            r.config.enabled_providers@ == seq![AIProvider::Ollama],
    {
        MultiAIManager { client_manager: AIClientManager::new(), config: MultiAIConfig::default() }
    }

    /// Applies a configuration: registers the back ends it brings up, makes
    /// its default the default, prefers the model of each route (the routes
    /// being the configuration's routing entries whose capability name is a
    /// capability) and keeps the configuration.
    pub fn initialize_providers(&mut self, config: MultiAIConfig, routes: &Vec<(ModelCapability, String)>)
        requires
            old(self).client_manager.wf(),
        ensures
            final(self).client_manager.wf(),
            forall|p: AIProvider| final(self).client_manager.registered@.contains(p) <==> (
                old(self).client_manager.registered@.contains(p) || providers_for(config).contains(p)),
            final(self).client_manager.default_provider == config.default_provider,
            forall|c: ModelCapability| #[trigger] final(self).client_manager.preferred(c) == routed_after(
                routes@, c, old(self).client_manager.preferred(c)),
            final(self).client_manager.model_cache == old(self).client_manager.model_cache,
            final(self).config == config,
    {
        let providers = providers_to_register(&config);
        let mut i: usize = 0;
        while i < providers.len()
            invariant
                i <= providers@.len(),
                providers@ == providers_for(config),
                self.client_manager.wf(),
                forall|p: AIProvider| self.client_manager.registered@.contains(p) <==> (
                    old(self).client_manager.registered@.contains(p) || providers@.take(i as int).contains(p)),
                self.client_manager.model_cache == old(self).client_manager.model_cache,
                self.client_manager.task_routing == old(self).client_manager.task_routing,
            decreases providers@.len() - i,
        {
            self.client_manager.register_provider(providers[i]);
            proof {
                assert(providers@.take(i + 1) =~= providers@.take(i as int).push(providers@[i as int]));
                assert forall|p: AIProvider| providers@.take(i + 1).contains(p) <==> (
                    providers@.take(i as int).contains(p) || p == providers@[i as int]) by {
                    broadcast use vstd::seq_lib::group_seq_properties;
                }
            }
            i += 1;
        }
        assert(providers@.take(providers@.len() as int) =~= providers@);
        self.client_manager.set_default_provider(config.default_provider);
        let ghost registered = self.client_manager.registered@;
        let ghost brought_up = providers_for(config);
        let mut j: usize = 0;
        while j < routes.len()
            invariant
                j <= routes@.len(),
                self.client_manager.wf(),
                self.client_manager.registered@ == registered,
                forall|p: AIProvider| registered.contains(p) <==> (
                    old(self).client_manager.registered@.contains(p) || brought_up.contains(p)),
                self.client_manager.default_provider == config.default_provider,
                self.client_manager.model_cache == old(self).client_manager.model_cache,
                forall|c: ModelCapability| #[trigger] self.client_manager.preferred(c) == routed_after(
                    routes@.take(j as int), c, old(self).client_manager.preferred(c)),
            decreases routes@.len() - j,
        {
            let (c, id) = (routes[j].0, routes[j].1.clone());
            let ids = vec![id];
            proof {
                assert(texts(ids@) =~= seq![routes@[j as int].1@]);
            }
            self.client_manager.configure_task_routing(c, ids);
            proof {
                assert(routes@.take(j + 1).drop_last() =~= routes@.take(j as int));
                assert(routes@.take(j + 1).last() == routes@[j as int]);
            }
            j += 1;
        }
        assert(routes@.take(routes@.len() as int) =~= routes@);
        self.config = config;
    }
}

} // verus!
