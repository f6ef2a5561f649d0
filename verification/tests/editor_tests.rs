use socrates_core::code_analysis::{CodeAnalysisResponse, CodeError, CodeSuggestion, Position, Range, Severity};
use socrates_core::editor::{
    ai_completions, ai_diagnostics, ai_hover_text, analysis_cache_key, code_actions, command_reply, ActionKind,
    completion_list, completion_prompt_text, detect_language_from_uri, fallback_completions, fallback_diagnostics,
    fallback_hover_text, get_context_around_position, get_context_before_position, hover_prompt_text,
    AIResponseCache, CommandReply, CompletionKind, OpenDocuments,
};

fn pos(line: u32, character: u32) -> Position {
    Position { line, character }
}

fn range(l0: u32, c0: u32, l1: u32, c1: u32) -> Range {
    Range { start: pos(l0, c0), end: pos(l1, c1) }
}

fn sample_analysis() -> CodeAnalysisResponse {
    CodeAnalysisResponse {
        analysis: "looks fine".to_string(),
        suggestions: vec![CodeSuggestion {
            range: range(1, 0, 1, 4),
            suggestion: "let".to_string(),
            description: "prefer let".to_string(),
            severity: Severity::Hint,
        }],
        errors: vec![CodeError { range: range(2, 2, 2, 8), message: "undefined name".to_string(), severity: Severity::Error }],
    }
}

#[test]
fn context_before_cuts_the_line_at_the_place() {
    let doc = "hello world\nfoo bar";
    assert_eq!(get_context_before_position(doc, pos(0, 5)), "hello");
    assert_eq!(get_context_before_position(doc, pos(1, 3)), "foo");
    assert_eq!(get_context_before_position(doc, pos(0, 100)), "hello world");
    assert_eq!(get_context_before_position(doc, pos(7, 0)), "");
}

#[test]
fn context_around_takes_neighbouring_lines() {
    let doc = "a\nb\nc\nd\ne";
    assert_eq!(get_context_around_position(doc, pos(2, 0), 1), "b\nc\nd");
    assert_eq!(get_context_around_position(doc, pos(0, 0), 1), "a\nb");
    assert_eq!(get_context_around_position(doc, pos(4, 0), 10), "a\nb\nc\nd\ne");
}

#[test]
fn todo_markers_point_at_the_first_todo_of_each_line() {
    let doc = "let x = 1; // TODO fix\nno marker here\n  TODO: again TODO";
    let markers = fallback_diagnostics(doc);
    assert_eq!(markers.len(), 2);
    assert_eq!(markers[0].range, range(0, 14, 0, 18));
    assert_eq!(markers[1].range, range(2, 2, 2, 6));
    assert!(fallback_diagnostics("nothing to do").is_empty());
}

#[test]
fn model_completions_skip_blank_lines_and_keep_ten() {
    let items = ai_completions("foo\n\n  bar  \n");
    assert_eq!(items.len(), 2);
    assert_eq!(items[0].label, "foo");
    assert_eq!(items[0].kind, CompletionKind::Text);
    assert_eq!(items[0].detail, "AI Suggestion");
    assert_eq!(items[0].documentation, Some("AI-generated suggestion: foo".to_string()));
    assert_eq!(items[0].sort_text, Some("00".to_string()));
    assert_eq!(items[1].label, "bar");
    assert_eq!(items[1].insert_text, "bar");
    assert_eq!(items[1].sort_text, Some("02".to_string()));
    assert!(!items[1].is_snippet);
    let many: Vec<String> = (0..15).map(|i| format!("item{}", i)).collect();
    assert_eq!(ai_completions(&many.join("\n")).len(), 10);
}

#[test]
fn snippets_depend_on_the_language() {
    let rust = fallback_completions("rust");
    let labels: Vec<&str> = rust.iter().map(|c| c.label.as_str()).collect();
    assert_eq!(labels, vec!["fn", "struct", "impl"]);
    assert!(rust.iter().all(|c| c.is_snippet && c.kind == CompletionKind::Snippet));
    assert_eq!(fallback_completions("typescript")[0].label, "function");
    assert_eq!(fallback_completions("python")[0].insert_text, "def ${1:name}(${2:params}):\n\t${0}");
    let other = fallback_completions("cobol");
    assert_eq!(other.len(), 1);
    assert_eq!(other[0].detail, "Create an if statement");
}

#[test]
fn completion_list_adds_snippets_and_caps_at_twenty() {
    let ai = ai_completions("one\ntwo");
    let list = completion_list(Some(ai), "rust");
    assert_eq!(list.len(), 5);
    assert_eq!(list[0].label, "one");
    assert_eq!(list[2].label, "fn");
    let fallback_only = completion_list(None, "rust");
    assert_eq!(fallback_only.len(), 6);
    let many: Vec<String> = (0..10).map(|i| format!("x{}", i)).collect();
    let mut big = ai_completions(&many.join("\n"));
    big.extend(ai_completions(&many.join("\n")));
    let capped = completion_list(Some(big), "rust");
    assert_eq!(capped.len(), 20);
}

#[test]
fn hover_texts() {
    assert_eq!(
        fallback_hover_text("foo"),
        "**foo**\n\nAuto-Coder can provide more information about this code. Use the command palette to analyze or explain this code."
    );
    assert_eq!(ai_hover_text("foo", "a function"), "**foo**\n\na function");
    assert_eq!(
        hover_prompt_text("x", "let x = 1;", "rust"),
        "Explain the rust identifier 'x' in the following context. Provide a concise explanation suitable for an IDE hover tooltip:\n\n```rust\nlet x = 1;\n```\n\nFocus on what 'x' is, its purpose, and relevant details."
    );
}

#[test]
fn completion_prompts_follow_the_trigger() {
    assert_eq!(
        completion_prompt_text("obj.", "javascript", Some(".")),
        "Given this javascript code context, suggest appropriate method/property completions after the dot:\n\n```javascript\nobj.\n```\n\nReturn a list of completions with descriptions."
    );
    assert_eq!(
        completion_prompt_text("std:", "rust", Some(":")),
        "Given this rust code context, suggest appropriate type or namespace completions after the colon:\n\n```rust\nstd:\n```\n\nReturn a list of completions with descriptions."
    );
    assert_eq!(
        completion_prompt_text("x", "rust", None),
        "Given this rust code context, suggest appropriate code completions:\n\n```rust\nx\n```\n\nReturn a list of relevant completions with descriptions."
    );
}

#[test]
fn code_actions_fix_each_diagnostic() {
    let actions = code_actions(&vec!["missing semicolon".to_string()]);
    let titles: Vec<&str> = actions.iter().map(|a| a.title.as_str()).collect();
    assert_eq!(titles, vec!["Fix: missing semicolon", "Analyze Code", "Explain Code"]);
    assert_eq!(actions[0].command, "auto-coder.fixError");
    assert_eq!(actions[0].command_title, "Fix Error");
    assert_eq!(actions[0].kind, ActionKind::QuickFix);
    assert_eq!(actions[0].diagnostic, Some(0));
    assert_eq!(actions[1].command, "auto-coder.analyzeCode");
    assert_eq!(actions[2].command, "auto-coder.explainCode");
    assert_eq!(actions[2].kind, ActionKind::Source);
    assert!(actions[2].diagnostic.is_none());
    assert_eq!(code_actions(&vec![]).len(), 2);
}

#[test]
fn commands_are_answered() {
    assert!(matches!(command_reply("auto-coder.analyzeCode"), CommandReply::Analyze));
    match command_reply("auto-coder.fixError") {
        CommandReply::Inform { message } => assert_eq!(message, "Fixing error..."),
        other => panic!("unexpected {:?}", other),
    }
    match command_reply("auto-coder.generateCode") {
        CommandReply::Inform { message } => assert_eq!(message, "Generating code..."),
        other => panic!("unexpected {:?}", other),
    }
    match command_reply("something.else") {
        CommandReply::Unknown { message } => assert_eq!(message, "Unknown command: something.else"),
        other => panic!("unexpected {:?}", other),
    }
}

#[test]
fn cache_key_is_uri_and_md5_hex() {
    assert_eq!(analysis_cache_key("file:///a.rs", ""), "file:///a.rs_d41d8cd98f00b204e9800998ecf8427e");
    assert_eq!(analysis_cache_key("u", "abc"), "u_900150983cd24fb0d6963f7d28e17f72");
}

#[test]
fn response_cache_keeps_entries_for_their_lifetime() {
    let mut cache = AIResponseCache::new(10);
    assert!(cache.get("k", 0).is_none());
    cache.insert("k".to_string(), sample_analysis(), 1_000);
    let hit = cache.get("k", 5_000).expect("fresh entry");
    assert_eq!(hit.analysis, "looks fine");
    assert_eq!(hit.suggestions.len(), 1);
    assert_eq!(hit.errors[0].message, "undefined name");
    assert!(cache.get("k", 11_000).is_none());
    assert!(cache.get("k", 1_500).is_none());
    cache.insert("a".to_string(), sample_analysis(), 0);
    cache.insert("b".to_string(), sample_analysis(), 9_000);
    cache.cleanup_expired(12_000);
    assert!(cache.get("a", 12_000).is_none());
    assert!(cache.get("b", 12_000).is_some());
}

#[test]
fn language_from_uri_uses_the_path() {
    assert_eq!(detect_language_from_uri("file:///home/user/main.rs"), "rust");
    assert_eq!(detect_language_from_uri("file:///home/user/app.py"), "python");
    assert_eq!(detect_language_from_uri("not a uri"), "plaintext");
}

#[test]
fn model_findings_become_diagnostics() {
    let diags = ai_diagnostics(&sample_analysis());
    assert_eq!(diags.len(), 2);
    assert_eq!(diags[0].message, "prefer let");
    assert_eq!(diags[0].severity, Severity::Hint);
    assert_eq!(diags[0].range, range(1, 0, 1, 4));
    assert_eq!(diags[1].message, "undefined name");
    assert_eq!(diags[1].source, "Auto-Coder AI");
    assert_eq!(diags[1].severity, Severity::Error);
}

#[test]
fn open_documents_follow_edits() {
    let mut docs = OpenDocuments::new();
    docs.open("file:///a".to_string(), "one".to_string());
    assert_eq!(docs.text_of("file:///a").map(|s| s.as_str()), Some("one"));
    assert!(docs.apply_change("file:///a".to_string(), Some("two".to_string())));
    assert_eq!(docs.text_of("file:///a").map(|s| s.as_str()), Some("two"));
    assert!(!docs.apply_change("file:///a".to_string(), None));
    assert_eq!(docs.text_of("file:///a").map(|s| s.as_str()), Some("two"));
    docs.close("file:///a");
    assert!(docs.text_of("file:///a").is_none());
}
