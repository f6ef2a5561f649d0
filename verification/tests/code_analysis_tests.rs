use socrates_core::code_analysis::{
    analysis_messages, analysis_response, assistant_model_name, fix_messages, fix_response, generation_messages,
    generation_response, repository_suggestions, repository_summary, CodeAnalysisRequest, CodeFixRequest,
    CodeGenerationRequest, FileAnalysis, Position, Range, SuggestionPriority,
};
use socrates_core::files::{detect_language, file_type, walk_step, WalkStep};

fn file(path: &str) -> FileAnalysis {
    FileAnalysis {
        file_path: path.to_string(),
        language: "rust".to_string(),
        summary: String::new(),
        suggestions: vec![],
        errors: vec![],
    }
}

#[test]
fn analysis_prompt_and_answer() {
    assert_eq!(assistant_model_name(), "llama3:latest");
    let req = CodeAnalysisRequest { code: "fn main() {}".to_string(), language: "rust".to_string(), file_path: None };
    let msgs = analysis_messages(&req);
    assert_eq!(msgs.len(), 2);
    assert_eq!(msgs[0].role, "system");
    assert_eq!(
        msgs[0].content,
        "You are an expert code analyzer. Analyze the provided code, identify issues, and suggest improvements."
    );
    assert_eq!(msgs[1].role, "user");
    assert_eq!(
        msgs[1].content,
        "Analyze the following rust code and provide suggestions and identify errors:\n\n```rust\nfn main() {}\n```"
    );
    let resp = analysis_response("Looks fine.".to_string());
    assert_eq!(resp.analysis, "Looks fine.");
    assert!(resp.suggestions.is_empty());
    assert!(resp.errors.is_empty());
}

#[test]
fn fix_prompt_names_the_range() {
    let req = CodeFixRequest {
        code: "let x = ;".to_string(),
        language: "rust".to_string(),
        error_message: "expected expression".to_string(),
        error_range: Range { start: Position { line: 3, character: 8 }, end: Position { line: 3, character: 9 } },
    };
    let msgs = fix_messages(&req);
    assert_eq!(
        msgs[1].content,
        "Fix the following rust code that has an error: 'expected expression' at line 3:8 to 3:9:\n\n```rust\nlet x = ;\n```"
    );
    let fixed = fix_response(&req, "Add a value.".to_string());
    assert_eq!(fixed.fixed_code, "let x = ;");
    assert_eq!(fixed.explanation, "Add a value.");
}

#[test]
fn generation_prompt_with_and_without_context() {
    let plain = CodeGenerationRequest { prompt: "a sort".to_string(), language: "python".to_string(), context: None };
    assert_eq!(generation_messages(&plain)[1].content, "Generate python code for the following request:\n\na sort");
    let with = CodeGenerationRequest {
        prompt: "a sort".to_string(),
        language: "python".to_string(),
        context: Some("lists only".to_string()),
    };
    assert_eq!(
        generation_messages(&with)[1].content,
        "Generate python code for the following request:\n\na sort\n\nContext:\nlists only"
    );
    let r = generation_response("def f(): pass".to_string());
    assert_eq!(r.generated_code, "def f(): pass");
    assert_eq!(r.explanation, "Code generated successfully.");
}

#[test]
fn repository_wide_results() {
    let files = vec![file("a.rs"), file("b.rs")];
    let s = repository_suggestions(&files);
    assert_eq!(s.len(), 1);
    assert_eq!(s[0].title, "Consistent code formatting");
    assert_eq!(s[0].priority, SuggestionPriority::Medium);
    assert_eq!(s[0].affected_files, vec!["a.rs", "b.rs"]);
    assert_eq!(
        repository_summary(&files, &s),
        "Repository analysis complete. Analyzed 2 files and found 1 repository-wide suggestions."
    );
}

#[test]
fn languages_by_extension() {
    assert_eq!(detect_language("src/main.rs"), "rust");
    assert_eq!(detect_language("app.tsx"), "tsx");
    assert_eq!(detect_language("x.cc"), "cpp");
    assert_eq!(detect_language("Makefile"), "plaintext");
    assert_eq!(detect_language("notes.xyz"), "plaintext");
    assert_eq!(file_type("a/B.PY"), "py");
    assert_eq!(file_type("dir.d/file"), "unknown");
    assert_eq!(file_type("archive.tar.gz"), "gz");
}

#[test]
fn glob_patterns() {
    let rust = Some(vec!["**/*.rs".to_string()]);
    assert_eq!(walk_step(0, None, true, "src/lib.rs", &rust, &None), WalkStep::Take);
    assert_eq!(walk_step(0, None, true, "src/lib.py", &rust, &None), WalkStep::Skip);
    assert_eq!(walk_step(0, None, true, "anything", &None, &Some(vec!["[".to_string()])), WalkStep::Take);
    assert_eq!(walk_step(0, None, true, "src/lib.rs", &None, &rust), WalkStep::Skip);
    assert_eq!(walk_step(0, None, false, "src/lib.rs", &rust, &None), WalkStep::Skip);
    assert_eq!(walk_step(100, None, true, "src/lib.rs", &rust, &None), WalkStep::Stop);
    assert_eq!(walk_step(2, Some(3), true, "src/lib.rs", &rust, &None), WalkStep::Take);
}
