//! The chat commands' own decisions, apart from the calls they make to the
//! model server: how a listed model is shown, how a streamed answer is
//! planned, and how a prompt is enriched with stored documents.

use vstd::prelude::*;
use crate::analysis::{AnalysisMode, parse_analysis_mode};
use crate::capability::{should_suggest_deep_analysis, suggests_deep_analysis};
use crate::hits::{QueryHit, copy_opt};
use crate::ollama;
use crate::text::{append_str, decimal_digits, owned, push_decimal};

verus! {

/// A model as the user sees it.
#[derive(Debug)]
pub struct ModelInfo {
    pub name: String,
    pub parameter_size: Option<String>,
    pub size_mb: u64,
    pub quantization: Option<String>,
}

/// How the user sees a model the server listed: its name, its parameter
/// size and quantization where the server gave details, and its size in
/// whole megabytes (of a million bytes).
pub fn model_info_of(model: &ollama::ModelInfo) -> (r: ModelInfo)
    ensures
        r.name == model.name,
        r.size_mb == model.size / 1_000_000,
        r.parameter_size == match model.details {
            Some(d) => d.parameter_size,
            None => None,
        },
        r.quantization == match model.details {
            Some(d) => d.quantization_level,
            None => None,
        },
{
    let (parameter_size, quantization) = match &model.details {
        Some(d) => (copy_opt(&d.parameter_size), copy_opt(&d.quantization_level)),
        None => (None, None),
    };
    ModelInfo { name: model.name.clone(), parameter_size, size_mb: model.size / 1_000_000, quantization }
}

/// How the user sees each model the server listed, in order.
pub fn list_models(models: &Vec<ollama::ModelInfo>) -> (r: Vec<ModelInfo>)
    ensures
        r@.len() == models@.len(),
        forall|i: int| 0 <= i < models@.len() ==> {
            let m = #[trigger] r@[i];
            &&& m.name == models@[i].name
            &&& m.size_mb == models@[i].size / 1_000_000
            &&& m.parameter_size == match models@[i].details {
                Some(d) => d.parameter_size,
                None => None,
            }
            &&& m.quantization == match models@[i].details {
                Some(d) => d.quantization_level,
                None => None,
            }
        },
{
    let mut r: Vec<ModelInfo> = Vec::new();
    let mut i: usize = 0;
    while i < models.len()
        invariant
            i <= models@.len(),
            r@.len() == i,
            forall|k: int| 0 <= k < i ==> {
                let m = #[trigger] r@[k];
                &&& m.name == models@[k].name
                &&& m.size_mb == models@[k].size / 1_000_000
                &&& m.parameter_size == match models@[k].details {
                    Some(d) => d.parameter_size,
                    None => None,
                }
                &&& m.quantization == match models@[k].details {
                    Some(d) => d.quantization_level,
                    None => None,
                }
            },
        decreases models@.len() - i,
    {
        r.push(model_info_of(&models[i]));
        i += 1;
    }
    r
}

/// How a streamed answer is produced: the analysis mode, whether deep
/// analysis is to be suggested, whether stored documents are consulted and
/// where, how many of them, how many analysis rounds at most, and whether
/// the reasoning is stored afterwards.
#[derive(Debug)]
pub struct StreamPlan {
    pub mode: AnalysisMode,
    pub suggest_deep_analysis: bool,
    pub use_rag: bool,
    pub collection: String,
    pub n_results: usize,
    pub max_rounds: usize,
    pub save_to_rag: bool,
}

/// The plan of a streamed answer: the named analysis mode (standard unless
/// "socratic" or "systematic"); a suggestion of deep analysis when the
/// prompt looks complex and the mode is standard; stored documents only when
/// asked for, from the named collection (else "default"), three of them; at
/// most the given number of rounds (else five); and storing the reasoning
/// unless told not to.
pub fn plan_stream(
    prompt: &str,
    use_rag: Option<bool>,
    collection: Option<String>,
    analysis_mode: Option<&str>,
    max_rounds: Option<usize>,
    save_to_rag: Option<bool>,
) -> (r: StreamPlan)
    ensures
        r.mode == parse_analysis_mode_spec(analysis_mode),
        r.suggest_deep_analysis == (suggests_deep_analysis(prompt) && r.mode == AnalysisMode::Standard),
        r.use_rag == match use_rag {
            Some(b) => b,
            None => false,
        },
        r.collection@ == match collection {
            Some(c) => c@,
            None => "default"@,
        },
        r.n_results == 3,
        r.max_rounds == match max_rounds {
            Some(n) => n,
            None => 5,
        },
        r.save_to_rag == match save_to_rag {
            Some(b) => b,
            None => true,
        },
{
    let mode = parse_analysis_mode(analysis_mode);
    let standard = match mode {
        AnalysisMode::Standard => true,
        _ => false,
    };
    let suggest = should_suggest_deep_analysis(prompt) && standard;
    StreamPlan {
        mode,
        suggest_deep_analysis: suggest,
        use_rag: match use_rag {
            Some(b) => b,
            None => false,
        },
        collection: match collection {
            Some(c) => c,
            None => owned("default"),
        },
        n_results: 3,
        max_rounds: match max_rounds {
            Some(n) => n,
            None => 5,
        },
        save_to_rag: match save_to_rag {
            Some(b) => b,
            None => true,
        },
    }
}

/// The analysis mode a name selects, as `parse_analysis_mode` states it.
pub open spec fn parse_analysis_mode_spec(name: Option<&str>) -> AnalysisMode {
    match name {
        Some(n) => if n@ == "socratic"@ {
            AnalysisMode::Socratic
        } else if n@ == "systematic"@ {
            AnalysisMode::Systematic
        } else {
            AnalysisMode::Standard
        },
        None => AnalysisMode::Standard,
    }
}

/// The numbered blocks of the documents: "[Document n]", the document and a
/// blank line each.
pub open spec fn document_blocks(docs: Seq<Seq<char>>) -> Seq<char>
    decreases docs.len(),
{
    if docs.len() == 0 {
        Seq::empty()
    } else {
        document_blocks(docs.drop_last()) + "[Document "@ + decimal_digits(docs.len()) + "]\n"@ + docs.last()
            + "\n\n"@
    }
}

/// The prompt enriched with the documents found for it: unchanged when none
/// was found; else the documents, numbered from one, then the question.
pub open spec fn rag_text(prompt: Seq<char>, docs: Seq<Seq<char>>) -> Seq<char> {
    if docs.len() == 0 {
        prompt
    } else {
        "Based on the following relevant information:\n\n"@ + document_blocks(docs) + "User Question: "@ + prompt
            + "\n\nAnswer:"@
    }
}

/// The documents of the hits, in order.
pub open spec fn hit_documents(hits: Seq<QueryHit>) -> Seq<Seq<char>> {
    hits.map_values(|h: QueryHit| h.document@)
}

/// The prompt enriched with the documents of the hits found for it.
pub fn rag_prompt(prompt: &str, hits: &Vec<QueryHit>) -> (r: String)
    ensures
        r@ == rag_text(prompt@, hit_documents(hits@)),
{
    if hits.len() == 0 {
        assert(hit_documents(hits@) =~= Seq::<Seq<char>>::empty());
        return owned(prompt);
    }
    let mut r = owned("Based on the following relevant information:\n\n");
    let ghost head = r@;
    let mut i: usize = 0;
    while i < hits.len()
        invariant
            i <= hits@.len(),
            r@ == head + document_blocks(hit_documents(hits@).take(i as int)),
        decreases hits@.len() - i,
    {
        append_str(&mut r, "[Document ");
        push_decimal(&mut r, (i + 1) as u64);
        append_str(&mut r, "]\n");
        append_str(&mut r, hits[i].document.as_str());
        append_str(&mut r, "\n\n");
        proof {
            let d = hit_documents(hits@);
            assert(d.take(i + 1).drop_last() =~= d.take(i as int));
            assert(d.take(i + 1).last() == hits@[i as int].document@);
            assert(r@ =~= head + document_blocks(d.take(i + 1)));
        }
        i += 1;
    }
    append_str(&mut r, "User Question: ");
    append_str(&mut r, prompt);
    append_str(&mut r, "\n\nAnswer:");
    assert(hit_documents(hits@).take(hits@.len() as int) =~= hit_documents(hits@));
    r
}

/// While a solution is replayed character by character, a short pause
/// follows every tenth character, starting with the first.
pub fn pause_after(index: usize) -> (r: bool)
    ensures
        r == (index % 10 == 0),
{
    index % 10 == 0
}

/// What a health check of the model server answers.
pub fn health_verdict(is_healthy: bool) -> (r: Result<bool, String>)
    ensures
        is_healthy ==> r == Ok::<bool, String>(true),
        !is_healthy ==> (r matches Err(e) && e@ == "Ollama service is unhealthy"@),
{
    if is_healthy {
        Ok(true)
    } else {
        Err(owned("Ollama service is unhealthy"))
    }
}

} // verus!
