//! Requests to and answers from the code assistant: what is asked of the
//! model for analysis, fixes and generation, and how the answers are put
//! together.

use vstd::prelude::*;
use crate::ollama::ChatMessage;
use crate::text::{concat_parts, concat_views, owned, push_decimal, decimal_digits, append_str};

verus! {

/// A place in a text: a line and a character on it, both from 0.
#[derive(Clone, Copy, Debug, PartialEq, Eq, Structural)]
pub struct Position {
    pub line: u32,
    pub character: u32,
}

/// A stretch of a text between two places.
#[derive(Clone, Copy, Debug, PartialEq, Eq, Structural)]
pub struct Range {
    pub start: Position,
    pub end: Position,
}

/// How serious a finding is, as editors grade diagnostics.
#[derive(Clone, Copy, Debug, PartialEq, Eq, Structural)]
pub enum Severity {
    Error,
    Warning,
    Information,
    Hint,
}

/// Code to analyse.
#[derive(Debug)]
pub struct CodeAnalysisRequest {
    pub code: String,
    pub language: String,
    pub file_path: Option<String>,
}

/// A suggested change to a stretch of code.
#[derive(Debug)]
pub struct CodeSuggestion {
    pub range: Range,
    pub suggestion: String,
    pub description: String,
    pub severity: Severity,
}

/// An error found in a stretch of code.
#[derive(Debug)]
pub struct CodeError {
    pub range: Range,
    pub message: String,
    pub severity: Severity,
}

/// What an analysis found.
#[derive(Debug)]
pub struct CodeAnalysisResponse {
    pub analysis: String,
    pub suggestions: Vec<CodeSuggestion>,
    pub errors: Vec<CodeError>,
}

/// A repository to analyse, with optional include and exclude patterns and
/// a cap on the number of files.
#[derive(Debug)]
pub struct RepositoryAnalysisRequest {
    pub repo_path: String,
    pub file_patterns: Option<Vec<String>>,
    pub exclude_patterns: Option<Vec<String>>,
    pub max_files: Option<usize>,
}

/// What the analysis of one file found.
#[derive(Debug)]
pub struct FileAnalysis {
    pub file_path: String,
    pub language: String,
    pub summary: String,
    pub suggestions: Vec<CodeSuggestion>,
    pub errors: Vec<CodeError>,
}

/// How urgent a repository-wide suggestion is.
#[derive(Clone, Copy, Debug, PartialEq, Eq, Structural)]
pub enum SuggestionPriority {
    Low,
    Medium,
    High,
    Critical,
}

/// A suggestion for the repository as a whole.
#[derive(Debug)]
pub struct RepositorySuggestion {
    pub title: String,
    pub description: String,
    pub affected_files: Vec<String>,
    pub priority: SuggestionPriority,
}

/// What the analysis of a repository found.
#[derive(Debug)]
pub struct RepositoryAnalysisResponse {
    pub summary: String,
    pub file_analyses: Vec<FileAnalysis>,
    pub suggestions: Vec<RepositorySuggestion>,
}

/// Code with an error to fix.
#[derive(Debug)]
pub struct CodeFixRequest {
    pub code: String,
    pub language: String,
    pub error_message: String,
    pub error_range: Range,
}

/// A fix and what it does.
#[derive(Debug)]
pub struct CodeFixResponse {
    pub fixed_code: String,
    pub explanation: String,
}

/// Code to generate.
#[derive(Debug)]
pub struct CodeGenerationRequest {
    pub prompt: String,
    pub language: String,
    pub context: Option<String>,
}

/// Generated code and what it is.
#[derive(Debug)]
pub struct CodeGenerationResponse {
    pub generated_code: String,
    pub explanation: String,
}

/// The model the assistant asks.
pub open spec fn assistant_model() -> Seq<char> {
    "llama3:latest"@
}

/// The model the assistant asks.
pub fn assistant_model_name() -> (r: String)
    ensures
        r@ == assistant_model(),
{
    owned("llama3:latest")
}

/// What the model is asked to analyse code.
pub open spec fn analysis_prompt(language: Seq<char>, code: Seq<char>) -> Seq<char> {
    "Analyze the following "@ + language + " code and provide suggestions and identify errors:\n\n```"@
        + language + "\n"@ + code + "\n```"@
}

/// The system instruction for analysis.
pub open spec fn analysis_instruction() -> Seq<char> {
    "You are an expert code analyzer. Analyze the provided code, identify issues, and suggest improvements."@
}

/// The messages that ask the model to analyse code: the instruction, then
/// the prompt from the user.
pub fn analysis_messages(request: &CodeAnalysisRequest) -> (r: Vec<ChatMessage>)
    ensures
        r@.len() == 2,
        r@[0].role@ == "system"@,
        r@[0].content@ == analysis_instruction(),
        r@[1].role@ == "user"@,
        r@[1].content@ == analysis_prompt(request.language@, request.code@),
{
    let parts = [
        "Analyze the following ",
        request.language.as_str(),
        " code and provide suggestions and identify errors:\n\n```",
        request.language.as_str(),
        "\n",
        request.code.as_str(),
        "\n```",
    ];
    let prompt = concat_parts(&parts);
    proof {
        reveal_with_fuel(concat_views, 8);
        assert(concat_views(parts@) =~= analysis_prompt(request.language@, request.code@));
    }
    vec![
        ChatMessage {
            role: owned("system"),
            content: owned(
                "You are an expert code analyzer. Analyze the provided code, identify issues, and suggest improvements.",
            ),
        },
        ChatMessage { role: owned("user"), content: prompt },
    ]
}

/// The analysis made of the model's answer: the answer as the analysis,
/// with no structured suggestions or errors.
pub fn analysis_response(answer: String) -> (r: CodeAnalysisResponse)
    ensures
        r.analysis == answer,
        r.suggestions@.len() == 0,
        r.errors@.len() == 0,
{
    CodeAnalysisResponse { analysis: answer, suggestions: Vec::new(), errors: Vec::new() }
}

/// What the model is asked to fix code.
pub open spec fn fix_prompt(request: CodeFixRequest) -> Seq<char> {
    "Fix the following "@ + request.language@ + " code that has an error: '"@ + request.error_message@
        + "' at line "@ + decimal_digits(request.error_range.start.line as nat) + ":"@ + decimal_digits(
        request.error_range.start.character as nat,
    ) + " to "@ + decimal_digits(request.error_range.end.line as nat) + ":"@ + decimal_digits(
        request.error_range.end.character as nat,
    ) + ":\n\n```"@ + request.language@ + "\n"@ + request.code@ + "\n```"@
}

/// The system instruction for fixes.
pub open spec fn fix_instruction() -> Seq<char> {
    "You are an expert code fixer. Fix the provided code based on the error message and location."@
}

/// The messages that ask the model to fix code.
pub fn fix_messages(request: &CodeFixRequest) -> (r: Vec<ChatMessage>)
    ensures
        r@.len() == 2,
        r@[0].role@ == "system"@,
        r@[0].content@ == fix_instruction(),
        r@[1].role@ == "user"@,
        r@[1].content@ == fix_prompt(*request),
{
    let head = [
        "Fix the following ",
        request.language.as_str(),
        " code that has an error: '",
        request.error_message.as_str(),
        "' at line ",
    ];
    let mut prompt = concat_parts(&head);
    proof {
        reveal_with_fuel(concat_views, 6);
    }
    push_decimal(&mut prompt, request.error_range.start.line as u64);
    append_str(&mut prompt, ":");
    push_decimal(&mut prompt, request.error_range.start.character as u64);
    append_str(&mut prompt, " to ");
    push_decimal(&mut prompt, request.error_range.end.line as u64);
    append_str(&mut prompt, ":");
    push_decimal(&mut prompt, request.error_range.end.character as u64);
    let tail = [":\n\n```", request.language.as_str(), "\n", request.code.as_str(), "\n```"];
    let t = concat_parts(&tail);
    proof {
        reveal_with_fuel(concat_views, 6);
    }
    append_str(&mut prompt, t.as_str());
    assert(prompt@ =~= fix_prompt(*request));
    vec![
        ChatMessage {
            role: owned("system"),
            content: owned("You are an expert code fixer. Fix the provided code based on the error message and location."),
        },
        ChatMessage { role: owned("user"), content: prompt },
    ]
}

/// The fix made of the model's answer: the code as it was, with the answer
/// as the explanation.
pub fn fix_response(request: &CodeFixRequest, answer: String) -> (r: CodeFixResponse)
    ensures
        r.fixed_code == request.code,
        r.explanation == answer,
{
    CodeFixResponse { fixed_code: request.code.clone(), explanation: answer }
}

/// What the model is asked to generate code.
pub open spec fn generation_prompt(request: CodeGenerationRequest) -> Seq<char> {
    let base = "Generate "@ + request.language@ + " code for the following request:\n\n"@ + request.prompt@;
    match request.context {
        Some(c) => base + "\n\nContext:\n"@ + c@,
        None => base,
    }
}

/// The system instruction for generation.
pub open spec fn generation_instruction() -> Seq<char> {
    "You are an expert code generator. Generate high-quality, well-documented code based on the user's request."@
}

/// The messages that ask the model to generate code.
pub fn generation_messages(request: &CodeGenerationRequest) -> (r: Vec<ChatMessage>)
    ensures
        r@.len() == 2,
        r@[0].role@ == "system"@,
        r@[0].content@ == generation_instruction(),
        r@[1].role@ == "user"@,
        r@[1].content@ == generation_prompt(*request),
{
    let parts = [
        "Generate ",
        request.language.as_str(),
        " code for the following request:\n\n",
        request.prompt.as_str(),
    ];
    let mut prompt = concat_parts(&parts);
    proof {
        reveal_with_fuel(concat_views, 5);
    }
    match &request.context {
        Some(c) => {
            append_str(&mut prompt, "\n\nContext:\n");
            append_str(&mut prompt, c.as_str());
        },
        None => {},
    }
    assert(prompt@ =~= generation_prompt(*request));
    vec![
        ChatMessage {
            role: owned("system"),
            content: owned(
                "You are an expert code generator. Generate high-quality, well-documented code based on the user's request.",
            ),
        },
        ChatMessage { role: owned("user"), content: prompt },
    ]
}

/// The generated code made of the model's answer: the answer as the code,
/// with a fixed note as the explanation.
pub fn generation_response(answer: String) -> (r: CodeGenerationResponse)
    ensures
        r.generated_code == answer,
        r.explanation@ == "Code generated successfully."@,
{
    CodeGenerationResponse { generated_code: answer, explanation: owned("Code generated successfully.") }
}

/// The repository-wide suggestions: consistent formatting, for every
/// analysed file, at medium priority.
pub fn repository_suggestions(file_analyses: &Vec<FileAnalysis>) -> (r: Vec<RepositorySuggestion>)
    ensures
        r@.len() == 1,
        r@[0].title@ == "Consistent code formatting"@,
        r@[0].description@ == "Consider using a code formatter to ensure consistent style across the repository."@,
        r@[0].priority == SuggestionPriority::Medium,
        r@[0].affected_files@.len() == file_analyses@.len(),
        forall|i: int| 0 <= i < file_analyses@.len() ==> #[trigger] r@[0].affected_files@[i] == file_analyses@[i].file_path,
{
    let mut files: Vec<String> = Vec::new();
    let mut i: usize = 0;
    while i < file_analyses.len()
        invariant
            i <= file_analyses@.len(),
            files@.len() == i,
            forall|j: int| 0 <= j < i ==> #[trigger] files@[j] == file_analyses@[j].file_path,
        decreases file_analyses@.len() - i,
    {
        files.push(file_analyses[i].file_path.clone());
        i += 1;
    }
    vec![
        RepositorySuggestion {
            title: owned("Consistent code formatting"),
            description: owned("Consider using a code formatter to ensure consistent style across the repository."),
            affected_files: files,
            priority: SuggestionPriority::Medium,
        },
    ]
}

/// The summary of a repository analysis.
pub open spec fn repository_summary_text(files: nat, suggestions: nat) -> Seq<char> {
    "Repository analysis complete. Analyzed "@ + decimal_digits(files) + " files and found "@ + decimal_digits(
        suggestions,
    ) + " repository-wide suggestions."@
}

/// The summary of a repository analysis.
pub fn repository_summary(file_analyses: &Vec<FileAnalysis>, suggestions: &Vec<RepositorySuggestion>) -> (r: String)
    ensures
        r@ == repository_summary_text(file_analyses@.len(), suggestions@.len()),
{
    let mut s = owned("Repository analysis complete. Analyzed ");
    push_decimal(&mut s, file_analyses.len() as u64);
    append_str(&mut s, " files and found ");
    push_decimal(&mut s, suggestions.len() as u64);
    append_str(&mut s, " repository-wide suggestions.");
    s
}

} // verus!
