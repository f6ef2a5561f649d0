use socrates_core::analysis::{
    classify_problem_type, initial_context, parse_analysis_mode, pattern_id, pattern_statistics,
    quality_indicator_count, reasoning_document, reasoning_metadata, reasoning_mode_label, similar_patterns_query, AnalysisConfig, AnalysisMode,
    StagedAnalysis,
};

#[test]
fn analysis_modes_are_parsed_by_name() {
    assert_eq!(parse_analysis_mode(Some("socratic")), AnalysisMode::Socratic);
    assert_eq!(parse_analysis_mode(Some("systematic")), AnalysisMode::Systematic);
    assert_eq!(parse_analysis_mode(Some("Socratic")), AnalysisMode::Standard);
    assert_eq!(parse_analysis_mode(None), AnalysisMode::Standard);
}

#[test]
fn default_analysis_config() {
    let c = AnalysisConfig::default();
    assert_eq!(c.mode, AnalysisMode::Standard);
    assert_eq!(c.max_rounds, 5);
    assert_eq!(c.time_limit_seconds, 300);
    assert!(c.save_to_rag);
}

#[test]
fn problem_types_in_order_of_priority() {
    assert_eq!(classify_problem_type("Please DEBUG this crash"), "debugging");
    assert_eq!(classify_problem_type("Design an architecture"), "design");
    assert_eq!(classify_problem_type("optimize the loop"), "optimization");
    assert_eq!(classify_problem_type("refactor this module"), "refactoring");
    assert_eq!(classify_problem_type("implement a parser"), "implementation");
    assert_eq!(classify_problem_type("explain closures"), "explanation");
    assert_eq!(classify_problem_type("hello there"), "general");
    assert_eq!(classify_problem_type("fix the design"), "debugging");
}

#[test]
fn quality_words_are_counted_once_each() {
    assert_eq!(quality_indicator_count("no signal"), 0);
    assert_eq!(quality_indicator_count("Because of this, however, because"), 2);
    assert_eq!(
        quality_indicator_count(
            "because however therefore consider alternative implication consequence assumption evidence"
        ),
        9
    );
}

#[test]
fn starting_context_lists_patterns() {
    assert_eq!(initial_context("p", "Similar", &vec![]), "p");
    assert_eq!(
        initial_context("p", "Similar", &vec!["a".to_string(), "b".to_string()]),
        "p\n\nSimilar:\na\n---\nb"
    );
}

#[test]
fn socratic_rounds_grow_the_context() {
    let mut s = StagedAnalysis::start(AnalysisMode::Socratic, "ctx".to_string());
    assert!(s.needs_round(5));
    assert!(!s.needs_round(0));
    assert_eq!(
        s.round_prompt(),
        "Given this problem context: ctx\n\nAnd considering this stage of analysis: What assumptions are we making about this problem? What evidence supports these assumptions?\n\nAsk one specific, insightful question that will deepen understanding. Be concise and focused:"
    );
    assert_eq!(s.answer_prompt("Why?"), "Context: ctx\n\nQuestion: Why?\n\nProvide a thoughtful, detailed answer:");
    s.record_round("Why?".to_string(), "Because.".to_string(), "t1".to_string());
    assert_eq!(s.rounds_done, 1);
    assert_eq!(s.context, "ctx\n\nInsight from Round 1: Q: Why? A: Because.");
    assert_eq!(s.chain[0].round, 1);
    assert_eq!(s.chain[0].question, "Why?");
    for i in 0..3 {
        s.record_round(format!("q{}", i), "a".to_string(), "t".to_string());
    }
    assert_eq!(s.rounds_done, 4);
    assert!(!s.needs_round(10));
    assert_eq!(s.chain.len(), 4);
    assert_eq!(s.chain[3].round, 4);
}

#[test]
fn systematic_rounds_follow_the_stages() {
    let mut s = StagedAnalysis::start(AnalysisMode::Systematic, "ctx".to_string());
    assert_eq!(
        s.round_prompt(),
        "Problem Context: ctx\n\nPlan Stage: What is the core problem? What are our objectives and constraints?\n\nProvide a structured analysis for this stage:"
    );
    s.record_round(String::new(), "the plan".to_string(), "t".to_string());
    assert_eq!(s.context, "ctx\n\nPlan Analysis: the plan");
    assert_eq!(s.chain[0].question, "Plan Stage: What is the core problem? What are our objectives and constraints?");
    assert!(s.round_prompt().starts_with("Problem Context: ctx\n\nPlan Analysis: the plan\n\nDo Stage: "));
    assert!(!s.needs_round(1));
    assert_eq!(
        s.synthesis_prompt(),
        "Based on all the analysis and reasoning below, provide a clear, actionable solution:\n\nctx\n\nPlan Analysis: the plan\n\nFinal Solution:"
    );
}

#[test]
fn similar_pattern_query_names_the_problem_type() {
    assert_eq!(
        similar_patterns_query("fix my bug"),
        "Similar problem to analyze: fix my bug Find reasoning patterns for debugging problems"
    );
}

#[test]
fn reasoning_mode_labels() {
    assert_eq!(reasoning_mode_label(None), ("Unknown".to_string(), "unknown".to_string()));
    assert_eq!(
        reasoning_mode_label(Some("What ASSUMPTIONS are made?")),
        ("Socratic".to_string(), "socratic".to_string())
    );
    assert_eq!(reasoning_mode_label(Some("Plan Stage")), ("Systematic".to_string(), "systematic".to_string()));
}

#[test]
fn pattern_ids_are_fresh() {
    let a = pattern_id();
    let b = pattern_id();
    assert!(a.starts_with("deep_analysis_"));
    assert_eq!(a.len(), "deep_analysis_".len() + 36);
    assert_ne!(a, b);
}

#[test]
fn pattern_statistics_when_store_is_there() {
    assert!(pattern_statistics(false).is_empty());
    let stats = pattern_statistics(true);
    assert_eq!(stats.len(), 3);
    assert_eq!(stats[0], ("total_patterns".to_string(), 0));
    assert_eq!(stats[2], ("systematic_patterns".to_string(), 0));
}

#[test]
fn reasoning_patterns_are_written_out() {
    let rounds = vec![
        ("What assumption?".to_string(), "Because.".to_string(), "0.65".to_string()),
        ("What else?".to_string(), "This.".to_string(), "0.70".to_string()),
    ];
    assert_eq!(
        reasoning_document("p", &rounds, "s", "Socratic", "0.68"),
        "Deep Analysis Pattern\n\nOriginal Problem: p\n\nReasoning Process:\nRound 1: What assumption?\nAnswer: Because. (Confidence: 0.65)\n\nRound 2: What else?\nAnswer: This. (Confidence: 0.70)\n\nFinal Solution: s\n\nPattern Summary: This is a successful Socratic analysis with 2 reasoning rounds and average confidence of 0.68."
    );
    let meta = reasoning_metadata("fix the bug", Some("What assumption?"), 2, "0.68", "héllo");
    assert_eq!(meta[0], ("problem_type".to_string(), "debugging".to_string()));
    assert_eq!(meta[1], ("analysis_mode".to_string(), "socratic".to_string()));
    assert_eq!(meta[2], ("rounds".to_string(), "2".to_string()));
    assert_eq!(meta[3], ("avg_confidence".to_string(), "0.68".to_string()));
    assert_eq!(meta[4], ("solution_length".to_string(), "6".to_string()));
}
