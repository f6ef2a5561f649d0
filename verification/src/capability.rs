//! Routing of prompts and models to capabilities: which kind of task a prompt
//! asks for, whether it deserves deep analysis, and what each provider's
//! models are good at.

use vstd::prelude::*;
use crate::text::{chars_of, contains, lower_contains, lowercase, starts_with, str_contains, str_equals, str_starts_with, to_lowercase};

verus! {

/// The AI back ends the assistant can talk to.
#[derive(Clone, Copy, Debug, PartialEq, Eq, Hash, Structural)]
pub enum AIProvider {
    Ollama,
    OpenAI,
    Anthropic,
}

/// Kinds of task a model can be routed to.
#[derive(Clone, Copy, Debug, PartialEq, Eq, Hash, Structural)]
pub enum ModelCapability {
    CodeGeneration,
    CodeExplanation,
    Debugging,
    Documentation,
    Refactoring,
    Testing,
    Architecture,
    GeneralChat,
    Translation,
    Analysis,
}

/// The capability a lowercased prompt asks for: the first keyword group that
/// matches, in the order code generation, debugging, explanation,
/// documentation, refactoring, testing, architecture; general chat otherwise.
pub open spec fn prompt_capability(lower: Seq<char>) -> ModelCapability {
    if contains(lower, "write"@) && (contains(lower, "function"@) || contains(lower, "class"@)
        || contains(lower, "code"@)) {
        ModelCapability::CodeGeneration
    } else if contains(lower, "debug"@) || contains(lower, "error"@) || contains(lower, "fix"@)
        || contains(lower, "bug"@) {
        ModelCapability::Debugging
    } else if contains(lower, "explain"@) || contains(lower, "what does"@) || contains(
        lower,
        "how does"@,
    ) {
        ModelCapability::CodeExplanation
    } else if contains(lower, "document"@) || contains(lower, "comment"@) || contains(
        lower,
        "readme"@,
    ) {
        ModelCapability::Documentation
    } else if contains(lower, "refactor"@) || contains(lower, "improve"@) || contains(
        lower,
        "optimize"@,
    ) {
        ModelCapability::Refactoring
    } else if contains(lower, "test"@) || contains(lower, "unit test"@) || contains(
        lower,
        "spec"@,
    ) {
        ModelCapability::Testing
    } else if contains(lower, "architecture"@) || contains(lower, "design"@) || contains(
        lower,
        "pattern"@,
    ) {
        ModelCapability::Architecture
    } else {
        ModelCapability::GeneralChat
    }
}

/// Classifies a prompt into the capability it asks for.
pub fn classify_prompt_capability(prompt: &str) -> (c: ModelCapability)
    ensures
        c == prompt_capability(lowercase(prompt@)),
{
    let lower_s = to_lowercase(prompt);
    let lv = chars_of(lower_s.as_str());
    let l = lv.as_slice();
    if lower_contains(l, "write") && (lower_contains(l, "function") || lower_contains(l, "class")
        || lower_contains(l, "code")) {
        return ModelCapability::CodeGeneration;
    }
    if lower_contains(l, "debug") || lower_contains(l, "error") || lower_contains(l, "fix")
        || lower_contains(l, "bug") {
        return ModelCapability::Debugging;
    }
    if lower_contains(l, "explain") || lower_contains(l, "what does") || lower_contains(
        l,
        "how does",
    ) {
        return ModelCapability::CodeExplanation;
    }
    if lower_contains(l, "document") || lower_contains(l, "comment") || lower_contains(
        l,
        "readme",
    ) {
        return ModelCapability::Documentation;
    }
    if lower_contains(l, "refactor") || lower_contains(l, "improve") || lower_contains(
        l,
        "optimize",
    ) {
        return ModelCapability::Refactoring;
    }
    if lower_contains(l, "test") || lower_contains(l, "unit test") || lower_contains(l, "spec") {
        return ModelCapability::Testing;
    }
    if lower_contains(l, "architecture") || lower_contains(l, "design") || lower_contains(
        l,
        "pattern",
    ) {
        return ModelCapability::Architecture;
    }
    ModelCapability::GeneralChat
}

/// How a prompt is classified, by the keywords its lowercase form holds.
/// A request to write a function, class or code is code generation. Else
/// any of `debug`, `error`, `fix`, `bug` makes it debugging; else any of
/// `explain`, `what does`, `how does` an explanation; else any of
/// `document`, `comment`, `readme` documentation; else any of `refactor`,
/// `improve`, `optimize` refactoring; else any of `test`, `unit test`,
/// `spec` testing;
/// else any of `architecture`, `design`, `pattern` architecture. A prompt
/// with none of these is general chat.
pub proof fn law_prompt_keywords_decide_capability(prompt: Seq<char>)
    ensures
        ({
            let l = lowercase(prompt);
            let c = prompt_capability(l);
            let generation = contains(l, "write"@) && (contains(l, "function"@) || contains(l, "class"@)
                || contains(l, "code"@));
            let debugging = contains(l, "debug"@) || contains(l, "error"@) || contains(l, "fix"@)
                || contains(l, "bug"@);
            let explanation = contains(l, "explain"@) || contains(l, "what does"@) || contains(l, "how does"@);
            let documentation = contains(l, "document"@) || contains(l, "comment"@) || contains(l, "readme"@);
            let refactoring = contains(l, "refactor"@) || contains(l, "improve"@) || contains(l, "optimize"@);
            let testing = contains(l, "test"@) || contains(l, "unit test"@) || contains(l, "spec"@);
            let architecture = contains(l, "architecture"@) || contains(l, "design"@) || contains(l, "pattern"@);
            &&& generation ==> c == ModelCapability::CodeGeneration
            &&& !generation && debugging ==> c == ModelCapability::Debugging
            &&& !generation && !debugging && explanation ==> c == ModelCapability::CodeExplanation
            &&& !generation && !debugging && !explanation && documentation ==> c == ModelCapability::Documentation
            &&& !generation && !debugging && !explanation && !documentation && refactoring
                ==> c == ModelCapability::Refactoring
            &&& !generation && !debugging && !explanation && !documentation && !refactoring && testing
                ==> c == ModelCapability::Testing
            &&& !generation && !debugging && !explanation && !documentation && !refactoring && !testing
                && architecture ==> c == ModelCapability::Architecture
            &&& !generation && !debugging && !explanation && !documentation && !refactoring && !testing
                && !architecture ==> c == ModelCapability::GeneralChat
        }),
{
}

/// The words whose presence marks a prompt as complex.
pub open spec fn complexity_indicators() -> Seq<Seq<char>> {
    seq![
        "why"@, "how"@, "debug"@, "troubleshoot"@, "issue"@, "problem"@, "error"@,
        "not working"@, "failing"@, "broken"@, "complex"@, "architecture"@, "design"@,
        "refactor"@, "optimize"@, "performance"@,
    ]
}

/// How many of `kws` occur in `text`.
pub open spec fn count_present(text: Seq<char>, kws: Seq<Seq<char>>) -> nat
    decreases kws.len(),
{
    if kws.len() == 0 {
        0
    } else {
        count_present(text, kws.drop_last()) + if contains(text, kws.last()) {
            1nat
        } else {
            0nat
        }
    }
}

/// Deep analysis is suggested when at least two complexity indicators occur
/// in the lowercased prompt, or when the prompt is longer than 200 bytes.
pub open spec fn suggests_deep_analysis(prompt: &str) -> bool {
    count_present(lowercase(prompt@), complexity_indicators()) >= 2 || prompt.len() > 200
}

/// Whether a prompt looks complex enough to suggest the deep analysis mode.
pub fn should_suggest_deep_analysis(prompt: &str) -> (r: bool)
    ensures
        r == suggests_deep_analysis(prompt),
{
    let kws: [&str; 16] = [
        "why", "how", "debug", "troubleshoot", "issue", "problem", "error", "not working",
        "failing", "broken", "complex", "architecture", "design", "refactor", "optimize",
        "performance",
    ];
    let ghost spec_kws = complexity_indicators();
    assert(kws@.map_values(|k: &str| k@) =~= spec_kws);
    let lower_s = to_lowercase(prompt);
    let lv = chars_of(lower_s.as_str());
    let mut n: usize = 0;
    let mut i: usize = 0;
    while i < 16
        invariant
            i <= 16,
            n <= i,
            kws@.map_values(|k: &str| k@) == spec_kws,
            spec_kws == complexity_indicators(),
            lv@ == lowercase(prompt@),
            n == count_present(lv@, spec_kws.take(i as int)),
        decreases 16 - i,
    {
        let hit = lower_contains(lv.as_slice(), kws[i]);
        assert(spec_kws.take(i + 1).drop_last() =~= spec_kws.take(i as int));
        assert(kws@[i as int]@ == spec_kws[i as int]);
        if hit {
            n += 1;
        }
        i += 1;
    }
    assert(spec_kws.take(16) =~= spec_kws);
    n >= 2 || prompt.len() > 200
}


/// What a locally served model is assumed to be good at, from its lowercased
/// name: code models, general chat families, phi, wizard, or a default pair.
pub open spec fn ollama_capabilities(lower: Seq<char>) -> Seq<ModelCapability> {
    if contains(lower, "code"@) || contains(lower, "coder"@) {
        seq![
            ModelCapability::CodeGeneration,
            ModelCapability::CodeExplanation,
            ModelCapability::Debugging,
            ModelCapability::Refactoring,
            ModelCapability::Testing,
            ModelCapability::Documentation,
        ]
    } else if contains(lower, "llama"@) || contains(lower, "mistral"@) || contains(lower, "qwen"@)
        || contains(lower, "deepseek"@) {
        seq![
            ModelCapability::CodeGeneration,
            ModelCapability::CodeExplanation,
            ModelCapability::GeneralChat,
            ModelCapability::Analysis,
            ModelCapability::Documentation,
        ]
    } else if contains(lower, "phi"@) {
        seq![ModelCapability::GeneralChat, ModelCapability::CodeExplanation, ModelCapability::Analysis]
    } else if contains(lower, "wizard"@) {
        seq![ModelCapability::CodeGeneration, ModelCapability::Debugging, ModelCapability::Refactoring]
    } else {
        seq![ModelCapability::GeneralChat, ModelCapability::CodeExplanation]
    }
}

/// The capabilities of a locally served model, from its name.
pub fn ollama_model_capabilities(model_name: &str) -> (r: Vec<ModelCapability>)
    ensures
        r@ == ollama_capabilities(lowercase(model_name@)),
{
    let lower_s = to_lowercase(model_name);
    let lv = chars_of(lower_s.as_str());
    let l = lv.as_slice();
    if lower_contains(l, "code") || lower_contains(l, "coder") {
        let r = vec![
            ModelCapability::CodeGeneration,
            ModelCapability::CodeExplanation,
            ModelCapability::Debugging,
            ModelCapability::Refactoring,
            ModelCapability::Testing,
            ModelCapability::Documentation,
        ];
        assert(r@ =~= ollama_capabilities(lowercase(model_name@)));
        r
    } else if lower_contains(l, "llama") || lower_contains(l, "mistral") || lower_contains(l, "qwen")
        || lower_contains(l, "deepseek") {
        let r = vec![
            ModelCapability::CodeGeneration,
            ModelCapability::CodeExplanation,
            ModelCapability::GeneralChat,
            ModelCapability::Analysis,
            ModelCapability::Documentation,
        ];
        assert(r@ =~= ollama_capabilities(lowercase(model_name@)));
        r
    } else if lower_contains(l, "phi") {
        let r = vec![ModelCapability::GeneralChat, ModelCapability::CodeExplanation, ModelCapability::Analysis];
        assert(r@ =~= ollama_capabilities(lowercase(model_name@)));
        r
    } else if lower_contains(l, "wizard") {
        let r = vec![ModelCapability::CodeGeneration, ModelCapability::Debugging, ModelCapability::Refactoring];
        assert(r@ =~= ollama_capabilities(lowercase(model_name@)));
        r
    } else {
        let r = vec![ModelCapability::GeneralChat, ModelCapability::CodeExplanation];
        assert(r@ =~= ollama_capabilities(lowercase(model_name@)));
        r
    }
}

/// The context window assumed for a locally served model, from its lowercased
/// name: an explicit size marker first, then family defaults, else 4096.
pub open spec fn ollama_context(lower: Seq<char>) -> u32 {
    if contains(lower, "32k"@) {
        32768
    } else if contains(lower, "16k"@) {
        16384
    } else if contains(lower, "8k"@) {
        8192
    } else if contains(lower, "4k"@) {
        4096
    } else if contains(lower, "llama2"@) {
        4096
    } else if contains(lower, "llama3"@) || contains(lower, "llama-3"@) {
        8192
    } else if contains(lower, "codellama"@) {
        16384
    } else if contains(lower, "mistral"@) {
        8192
    } else if contains(lower, "qwen"@) {
        32768
    } else if contains(lower, "deepseek"@) {
        16384
    } else if contains(lower, "phi"@) {
        2048
    } else {
        4096
    }
}

/// Estimates the context length of a locally served model from its name.
pub fn ollama_context_length(model_name: &str) -> (r: u32)
    ensures
        r == ollama_context(lowercase(model_name@)),
{
    let lower_s = to_lowercase(model_name);
    let lv = chars_of(lower_s.as_str());
    let l = lv.as_slice();
    if lower_contains(l, "32k") {
        32768
    } else if lower_contains(l, "16k") {
        16384
    } else if lower_contains(l, "8k") {
        8192
    } else if lower_contains(l, "4k") {
        4096
    } else if lower_contains(l, "llama2") {
        4096
    } else if lower_contains(l, "llama3") || lower_contains(l, "llama-3") {
        8192
    } else if lower_contains(l, "codellama") {
        16384
    } else if lower_contains(l, "mistral") {
        8192
    } else if lower_contains(l, "qwen") {
        32768
    } else if lower_contains(l, "deepseek") {
        16384
    } else if lower_contains(l, "phi") {
        2048
    } else {
        4096
    }
}

/// The generation speed, in tokens per second, assumed for a locally served
/// model from its lowercased name: by the parameter size it names, then by
/// family, else 30.
pub open spec fn ollama_speed(lower: Seq<char>) -> u32 {
    if contains(lower, "70b"@) || contains(lower, "72b"@) {
        5
    } else if contains(lower, "34b"@) || contains(lower, "33b"@) {
        12
    } else if contains(lower, "13b"@) || contains(lower, "14b"@) {
        25
    } else if contains(lower, "7b"@) || contains(lower, "8b"@) {
        40
    } else if contains(lower, "3b"@) || contains(lower, "1b"@) {
        60
    } else if contains(lower, "phi"@) {
        50
    } else if contains(lower, "code"@) {
        20
    } else {
        30
    }
}

/// Estimates how fast a locally served model generates, in tokens per
/// second, from its name.
pub fn estimate_speed(model_name: &str) -> (r: u32)
    ensures
        r == ollama_speed(lowercase(model_name@)),
{
    let lower_s = to_lowercase(model_name);
    let lv = chars_of(lower_s.as_str());
    let l = lv.as_slice();
    if lower_contains(l, "70b") || lower_contains(l, "72b") {
        5
    } else if lower_contains(l, "34b") || lower_contains(l, "33b") {
        12
    } else if lower_contains(l, "13b") || lower_contains(l, "14b") {
        25
    } else if lower_contains(l, "7b") || lower_contains(l, "8b") {
        40
    } else if lower_contains(l, "3b") || lower_contains(l, "1b") {
        60
    } else if lower_contains(l, "phi") {
        50
    } else if lower_contains(l, "code") {
        20
    } else {
        30
    }
}

/// What an OpenAI model is good at, from its exact name.
pub open spec fn openai_capabilities(name: Seq<char>) -> Seq<ModelCapability> {
    if starts_with(name, "gpt-4"@) {
        seq![
            ModelCapability::CodeGeneration,
            ModelCapability::CodeExplanation,
            ModelCapability::Debugging,
            ModelCapability::Documentation,
            ModelCapability::Refactoring,
            ModelCapability::Testing,
            ModelCapability::Architecture,
            ModelCapability::GeneralChat,
            ModelCapability::Analysis,
        ]
    } else if starts_with(name, "gpt-3.5"@) {
        seq![
            ModelCapability::CodeGeneration,
            ModelCapability::CodeExplanation,
            ModelCapability::Debugging,
            ModelCapability::Documentation,
            ModelCapability::GeneralChat,
        ]
    } else if contains(name, "code"@) {
        seq![
            ModelCapability::CodeGeneration,
            ModelCapability::CodeExplanation,
            ModelCapability::Debugging,
            ModelCapability::Refactoring,
        ]
    } else {
        seq![ModelCapability::GeneralChat]
    }
}

/// The capabilities of an OpenAI model.
pub fn openai_model_capabilities(model_name: &str) -> (r: Vec<ModelCapability>)
    ensures
        r@ == openai_capabilities(model_name@),
{
    if str_starts_with(model_name, "gpt-4") {
        let r = vec![
            ModelCapability::CodeGeneration,
            ModelCapability::CodeExplanation,
            ModelCapability::Debugging,
            ModelCapability::Documentation,
            ModelCapability::Refactoring,
            ModelCapability::Testing,
            ModelCapability::Architecture,
            ModelCapability::GeneralChat,
            ModelCapability::Analysis,
        ];
        assert(r@ =~= openai_capabilities(model_name@));
        r
    } else if str_starts_with(model_name, "gpt-3.5") {
        let r = vec![
            ModelCapability::CodeGeneration,
            ModelCapability::CodeExplanation,
            ModelCapability::Debugging,
            ModelCapability::Documentation,
            ModelCapability::GeneralChat,
        ];
        assert(r@ =~= openai_capabilities(model_name@));
        r
    } else if str_contains(model_name, "code") {
        let r = vec![
            ModelCapability::CodeGeneration,
            ModelCapability::CodeExplanation,
            ModelCapability::Debugging,
            ModelCapability::Refactoring,
        ];
        assert(r@ =~= openai_capabilities(model_name@));
        r
    } else {
        let r = vec![ModelCapability::GeneralChat];
        assert(r@ =~= openai_capabilities(model_name@));
        r
    }
}

/// The context window of an OpenAI model, by exact name; 4096 otherwise.
pub open spec fn openai_context(name: Seq<char>) -> u32 {
    if name == "gpt-4-turbo-preview"@ || name == "gpt-4-1106-preview"@ {
        128000
    } else if name == "gpt-4"@ || name == "gpt-4-0613"@ {
        8192
    } else if name == "gpt-4-32k"@ || name == "gpt-4-32k-0613"@ {
        32768
    } else if name == "gpt-3.5-turbo"@ || name == "gpt-3.5-turbo-0125"@ || name
        == "gpt-3.5-turbo-1106"@ {
        16385
    } else {
        4096
    }
}

/// The context length of an OpenAI model.
pub fn openai_context_length(model_name: &str) -> (r: u32)
    ensures
        r == openai_context(model_name@),
{
    if str_equals(model_name, "gpt-4-turbo-preview") || str_equals(model_name, "gpt-4-1106-preview") {
        128000
    } else if str_equals(model_name, "gpt-4") || str_equals(model_name, "gpt-4-0613") {
        8192
    } else if str_equals(model_name, "gpt-4-32k") || str_equals(model_name, "gpt-4-32k-0613") {
        32768
    } else if str_equals(model_name, "gpt-3.5-turbo") || str_equals(model_name, "gpt-3.5-turbo-0125")
        || str_equals(model_name, "gpt-3.5-turbo-1106") {
        16385
    } else {
        4096
    }
}

} // verus!
