//! Deep analysis: the staged questioning that the assistant runs with the
//! model, one round at a time, and how problems are classified for the
//! reasoning patterns it keeps.

use vstd::prelude::*;
use vstd::utf8::encode_utf8;
use vstd::string::StringSliceAdditionalSpecFns;
use crate::text::{
    append_str, concat, concat_parts, concat_views, contains, decimal_digits, join, lowercase, owned, push_decimal,
    str_equals, to_lowercase, chars_of, lower_contains, join_texts,
};
use crate::random::new_uuid;

verus! {

/// How a question is analysed.
#[derive(Clone, Copy, Debug, PartialEq, Eq, Structural)]
pub enum AnalysisMode {
    /// A direct answer.
    Standard,
    /// Four rounds of guided questioning.
    Socratic,
    /// The four stages of plan, do, check, act.
    Systematic,
}

/// The mode named by the user: `socratic`, `systematic`, or else standard.
pub fn parse_analysis_mode(name: Option<&str>) -> (r: AnalysisMode)
    ensures
        r == match name {
            Some(n) => if n@ == "socratic"@ {
                AnalysisMode::Socratic
            } else if n@ == "systematic"@ {
                AnalysisMode::Systematic
            } else {
                AnalysisMode::Standard
            },
            None => AnalysisMode::Standard,
        },
{
    match name {
        Some(n) => {
            if str_equals(n, "socratic") {
                AnalysisMode::Socratic
            } else if str_equals(n, "systematic") {
                AnalysisMode::Systematic
            } else {
                AnalysisMode::Standard
            }
        },
        None => AnalysisMode::Standard,
    }
}

/// How long and how far an analysis may go.
#[derive(Clone, Copy, Debug, PartialEq, Eq, Structural)]
pub struct AnalysisConfig {
    pub mode: AnalysisMode,
    pub max_rounds: usize,
    pub time_limit_seconds: u64,
    pub save_to_rag: bool,
}

impl Default for AnalysisConfig {
    /// Standard mode, at most five rounds, five minutes, saved for later.
    fn default() -> (r: Self)
        ensures
            r == (AnalysisConfig { mode: AnalysisMode::Standard, max_rounds: 5, time_limit_seconds: 300, save_to_rag: true }),
    {
        AnalysisConfig { mode: AnalysisMode::Standard, max_rounds: 5, time_limit_seconds: 300, save_to_rag: true }
    }
}

/// One question and its answer in a chain of reasoning. Its confidence is
/// kept by the caller.
#[derive(Debug)]
pub struct QuestionAnswerChain {
    pub question: String,
    pub answer: String,
    pub round: usize,
    pub timestamp: String,
}

/// The problem types, by the words that mark them, in the order they are
/// tried.
pub open spec fn problem_type_of(prompt: Seq<char>) -> Seq<char> {
    let l = lowercase(prompt);
    if contains(l, "debug"@) || contains(l, "error"@) || contains(l, "fix"@) {
        "debugging"@
    } else if contains(l, "design"@) || contains(l, "architecture"@) {
        "design"@
    } else if contains(l, "optimize"@) || contains(l, "performance"@) {
        "optimization"@
    } else if contains(l, "refactor"@) || contains(l, "improve"@) {
        "refactoring"@
    } else if contains(l, "implement"@) || contains(l, "create"@) {
        "implementation"@
    } else if contains(l, "explain"@) || contains(l, "understand"@) {
        "explanation"@
    } else {
        "general"@
    }
}

/// The type of problem a prompt poses, for matching reasoning patterns.
pub fn classify_problem_type(prompt: &str) -> (r: String)
    ensures
        r@ == problem_type_of(prompt@),
{
    let lower = to_lowercase(prompt);
    let l = chars_of(lower.as_str());
    let ls = l.as_slice();
    if lower_contains(ls, "debug") || lower_contains(ls, "error") || lower_contains(ls, "fix") {
        owned("debugging")
    } else if lower_contains(ls, "design") || lower_contains(ls, "architecture") {
        owned("design")
    } else if lower_contains(ls, "optimize") || lower_contains(ls, "performance") {
        owned("optimization")
    } else if lower_contains(ls, "refactor") || lower_contains(ls, "improve") {
        owned("refactoring")
    } else if lower_contains(ls, "implement") || lower_contains(ls, "create") {
        owned("implementation")
    } else if lower_contains(ls, "explain") || lower_contains(ls, "understand") {
        owned("explanation")
    } else {
        owned("general")
    }
}

/// The words that mark a thoughtful answer.
pub open spec fn quality_indicators() -> Seq<Seq<char>> {
    seq![
        "because"@,
        "however"@,
        "therefore"@,
        "consider"@,
        "alternative"@,
        "implication"@,
        "consequence"@,
        "assumption"@,
        "evidence"@,
    ]
}

/// How many of the quality words the lowercase answer contains.
pub open spec fn quality_count(answer: Seq<char>) -> nat {
    crate::select::count_where(9, |i: int| contains(lowercase(answer), quality_indicators()[i]))
}

/// How many of the quality words an answer contains (each counted once).
pub fn quality_indicator_count(answer: &str) -> (r: usize)
    ensures
        r == quality_count(answer@),
        r <= 9,
{
    let words = [
        "because", "however", "therefore", "consider", "alternative", "implication", "consequence", "assumption",
        "evidence",
    ];
    let lower = to_lowercase(answer);
    let l = chars_of(lower.as_str());
    let mut n: usize = 0;
    let mut i: usize = 0;
    while i < 9
        invariant
            i <= 9,
            l@ == lowercase(answer@),
            forall|j: int| 0 <= j < 9 ==> #[trigger] words@[j]@ == quality_indicators()[j],
            n == crate::select::count_where(i as int, |j: int| contains(lowercase(answer@), quality_indicators()[j])),
            n <= i,
        decreases 9 - i,
    {
        if lower_contains(l.as_slice(), words[i]) {
            n += 1;
        }
        i += 1;
    }
    n
}

/// The questions of the four Socratic stages.
pub open spec fn socratic_stages() -> Seq<Seq<char>> {
    seq![
        "What assumptions are we making about this problem? What evidence supports these assumptions?"@,
        "What alternative approaches or perspectives could we consider? What are we not seeing?"@,
        "What are the implications and consequences of different solutions? What could go wrong?"@,
        "How can we validate our understanding? What would convince us this is the right solution?"@,
    ]
}

/// The names and questions of the four systematic stages.
pub open spec fn systematic_stages() -> Seq<(Seq<char>, Seq<char>)> {
    seq![
        ("Plan"@, "What is the core problem? What are our objectives and constraints?"@),
        ("Do"@, "What is our proposed solution approach? What are the key steps?"@),
        ("Check"@, "What are the potential issues with this approach? How do we validate it?"@),
        ("Act"@, "How do we refine and implement this solution? What are the next steps?"@),
    ]
}

fn socratic_stage(i: usize) -> (r: &'static str)
    requires
        i < 4,
    ensures
        r@ == socratic_stages()[i as int],
{
    if i == 0 {
        "What assumptions are we making about this problem? What evidence supports these assumptions?"
    } else if i == 1 {
        "What alternative approaches or perspectives could we consider? What are we not seeing?"
    } else if i == 2 {
        "What are the implications and consequences of different solutions? What could go wrong?"
    } else {
        "How can we validate our understanding? What would convince us this is the right solution?"
    }
}

fn systematic_stage(i: usize) -> (r: (&'static str, &'static str))
    requires
        i < 4,
    ensures
        r.0@ == systematic_stages()[i as int].0,
        r.1@ == systematic_stages()[i as int].1,
{
    if i == 0 {
        ("Plan", "What is the core problem? What are our objectives and constraints?")
    } else if i == 1 {
        ("Do", "What is our proposed solution approach? What are the key steps?")
    } else if i == 2 {
        ("Check", "What are the potential issues with this approach? How do we validate it?")
    } else {
        ("Act", "How do we refine and implement this solution? What are the next steps?")
    }
}

/// The starting context: the prompt, followed by the similar patterns found
/// (under `heading`, separated by rules) when there are any.
pub open spec fn starting_context(prompt: Seq<char>, heading: Seq<char>, patterns: Seq<Seq<char>>) -> Seq<char> {
    if patterns.len() == 0 {
        prompt
    } else {
        prompt + "\n\n"@ + heading + ":\n"@ + join(patterns, "\n---\n"@)
    }
}

/// The starting context of an analysis.
pub fn initial_context(prompt: &str, heading: &str, patterns: &Vec<String>) -> (r: String)
    ensures
        r@ == starting_context(prompt@, heading@, patterns@.map_values(|p: String| p@)),
{
    if patterns.len() == 0 {
        return owned(prompt);
    }
    let joined = join_texts(patterns, "\n---\n");
    let parts = [prompt, "\n\n", heading, ":\n", joined.as_str()];
    let r = concat_parts(&parts);
    proof {
        reveal_with_fuel(concat_views, 6);
    }
    r
}

/// The state of a staged analysis: the context built so far, the rounds
/// done and the chain of questions and answers.
pub struct StagedAnalysis {
    pub mode: AnalysisMode,
    pub context: String,
    pub rounds_done: usize,
    pub chain: Vec<QuestionAnswerChain>,
}

/// The number of rounds a staged analysis runs: the four stages, or fewer
/// if the limit is lower.
pub open spec fn planned_rounds(max_rounds: usize) -> nat {
    if max_rounds < 4 {
        max_rounds as nat
    } else {
        4
    }
}

impl StagedAnalysis {
    /// The chain has a link per round done, numbered from 1.
    pub open spec fn wf(&self) -> bool {
        &&& self.chain@.len() == self.rounds_done
        &&& self.rounds_done <= 4
        &&& forall|i: int| 0 <= i < self.chain@.len() ==> #[trigger] self.chain@[i].round == i + 1
    }

    /// A staged analysis in `mode` from the starting context.
    pub fn start(mode: AnalysisMode, context: String) -> (r: Self)
        ensures
            r.wf(),
            r.mode == mode,
            r.context == context,
            r.rounds_done == 0,
    {
        StagedAnalysis { mode, context, rounds_done: 0, chain: Vec::new() }
    }

    /// Whether another round is due under the round limit.
    pub fn needs_round(&self, max_rounds: usize) -> (r: bool)
        requires
            self.wf(),
        ensures
            r == (self.rounds_done < planned_rounds(max_rounds)),
    {
        self.rounds_done < 4 && self.rounds_done < max_rounds
    }

    /// What the model is asked next: for Socratic questioning, a question
    /// for the stage; for the systematic stages, the stage's analysis.
    pub fn round_prompt(&self) -> (r: String)
        requires
            self.wf(),
            self.rounds_done < 4,
            self.mode != AnalysisMode::Standard,
        ensures
            self.mode == AnalysisMode::Socratic ==> r@ == "Given this problem context: "@ + self.context@
                + "\n\nAnd considering this stage of analysis: "@ + socratic_stages()[self.rounds_done as int]
                + "\n\nAsk one specific, insightful question that will deepen understanding. Be concise and focused:"@,
            self.mode == AnalysisMode::Systematic ==> r@ == "Problem Context: "@ + self.context@ + "\n\n"@
                + systematic_stages()[self.rounds_done as int].0 + " Stage: "@ + systematic_stages()[self.rounds_done as int].1
                + "\n\nProvide a structured analysis for this stage:"@,
    {
        match self.mode {
            AnalysisMode::Socratic => {
                let stage = socratic_stage(self.rounds_done);
                let parts = [
                    "Given this problem context: ",
                    self.context.as_str(),
                    "\n\nAnd considering this stage of analysis: ",
                    stage,
                    "\n\nAsk one specific, insightful question that will deepen understanding. Be concise and focused:",
                ];
                let r = concat_parts(&parts);
                proof {
                    reveal_with_fuel(concat_views, 6);
                }
                r
            },
            _ => {
                let (name, question) = systematic_stage(self.rounds_done);
                let parts = [
                    "Problem Context: ",
                    self.context.as_str(),
                    "\n\n",
                    name,
                    " Stage: ",
                    question,
                    "\n\nProvide a structured analysis for this stage:",
                ];
                let r = concat_parts(&parts);
                proof {
                    reveal_with_fuel(concat_views, 8);
                }
                r
            },
        }
    }

    /// What the model is asked to answer a Socratic question.
    pub fn answer_prompt(&self, question: &str) -> (r: String)
        ensures
            r@ == "Context: "@ + self.context@ + "\n\nQuestion: "@ + question@
                + "\n\nProvide a thoughtful, detailed answer:"@,
    {
        let parts = ["Context: ", self.context.as_str(), "\n\nQuestion: ", question, "\n\nProvide a thoughtful, detailed answer:"];
        let r = concat_parts(&parts);
        proof {
            reveal_with_fuel(concat_views, 6);
        }
        r
    }

    /// Records a round: for Socratic questioning the question asked and its
    /// answer, for the systematic stages the stage and its analysis; the
    /// context grows by what was learned.
    pub fn record_round(&mut self, question: String, answer: String, timestamp: String)
        requires
            old(self).wf(),
            old(self).rounds_done < 4,
            old(self).mode != AnalysisMode::Standard,
        ensures
            final(self).wf(),
            final(self).mode == old(self).mode,
            final(self).rounds_done == old(self).rounds_done + 1,
            final(self).chain@.drop_last() == old(self).chain@,
            final(self).chain@.last().answer == answer,
            final(self).chain@.last().timestamp == timestamp,
            old(self).mode == AnalysisMode::Socratic ==> final(self).chain@.last().question == question
                && final(self).context@ == old(self).context@ + "\n\nInsight from Round "@ + decimal_digits(
                (old(self).rounds_done + 1) as nat,
            ) + ": Q: "@ + question@ + " A: "@ + answer@,
            old(self).mode == AnalysisMode::Systematic ==> final(self).chain@.last().question@
                == systematic_stages()[old(self).rounds_done as int].0 + " Stage: "@
                + systematic_stages()[old(self).rounds_done as int].1 && final(self).context@ == old(self).context@
                + "\n\n"@ + systematic_stages()[old(self).rounds_done as int].0 + " Analysis: "@ + answer@,
    {
        let round = self.rounds_done + 1;
        match self.mode {
            AnalysisMode::Socratic => {
                append_str(&mut self.context, "\n\nInsight from Round ");
                push_decimal(&mut self.context, round as u64);
                append_str(&mut self.context, ": Q: ");
                append_str(&mut self.context, question.as_str());
                append_str(&mut self.context, " A: ");
                append_str(&mut self.context, answer.as_str());
                self.chain.push(QuestionAnswerChain { question, answer, round, timestamp });
            },
            _ => {
                let (name, q) = systematic_stage(self.rounds_done);
                let label = concat_parts(&[name, " Stage: ", q]);
                proof {
                    reveal_with_fuel(concat_views, 4);
                }
                append_str(&mut self.context, "\n\n");
                append_str(&mut self.context, name);
                append_str(&mut self.context, " Analysis: ");
                append_str(&mut self.context, answer.as_str());
                self.chain.push(QuestionAnswerChain { question: label, answer, round, timestamp });
            },
        }
        self.rounds_done = round;
        proof {
            assert(self.chain@.drop_last() =~= old(self).chain@);
        }
    }

    /// What the model is asked for the final solution.
    pub fn synthesis_prompt(&self) -> (r: String)
        ensures
            r@ == "Based on all the analysis and reasoning below, provide a clear, actionable solution:\n\n"@
                + self.context@ + "\n\nFinal Solution:"@,
    {
        let parts = [
            "Based on all the analysis and reasoning below, provide a clear, actionable solution:\n\n",
            self.context.as_str(),
            "\n\nFinal Solution:",
        ];
        let r = concat_parts(&parts);
        proof {
            reveal_with_fuel(concat_views, 4);
        }
        r
    }
}

/// The query for reasoning patterns similar to a prompt.
pub fn similar_patterns_query(prompt: &str) -> (r: String)
    ensures
        r@ == "Similar problem to analyze: "@ + prompt@ + " Find reasoning patterns for "@ + problem_type_of(prompt@)
            + " problems"@,
{
    let t = classify_problem_type(prompt);
    let parts = ["Similar problem to analyze: ", prompt, " Find reasoning patterns for ", t.as_str(), " problems"];
    let r = concat_parts(&parts);
    proof {
        reveal_with_fuel(concat_views, 6);
    }
    r
}

/// How a saved reasoning pattern is labelled: Socratic if its first
/// question speaks of an assumption, systematic otherwise, unknown if there
/// is no question; in title case and in lowercase.
pub fn reasoning_mode_label(first_question: Option<&str>) -> (r: (String, String))
    ensures
        match first_question {
            None => r.0@ == "Unknown"@ && r.1@ == "unknown"@,
            Some(q) => if contains(lowercase(q@), "assumption"@) {
                r.0@ == "Socratic"@ && r.1@ == "socratic"@
            } else {
                r.0@ == "Systematic"@ && r.1@ == "systematic"@
            },
        },
{
    match first_question {
        None => (owned("Unknown"), owned("unknown")),
        Some(q) => {
            let lower = to_lowercase(q);
            let l = chars_of(lower.as_str());
            if lower_contains(l.as_slice(), "assumption") {
                (owned("Socratic"), owned("socratic"))
            } else {
                (owned("Systematic"), owned("systematic"))
            }
        },
    }
}

/// A fresh id for a saved reasoning pattern: `deep_analysis_` and a random
/// UUID.
pub fn pattern_id() -> (r: String)
    ensures
        crate::text::starts_with(r@, "deep_analysis_"@),
{
    let u = new_uuid();
    let r = concat("deep_analysis_", u.as_str());
    proof {
        reveal_strlit("deep_analysis_");
        assert(r@.subrange(0, 14) =~= "deep_analysis_"@);
    }
    r
}

/// The pattern statistics: zero for each kind when patterns can be kept,
/// none otherwise.
pub fn pattern_statistics(store_available: bool) -> (r: Vec<(String, usize)>)
    ensures
        !store_available ==> r@.len() == 0,
        store_available ==> r@.len() == 3 && r@[0].0@ == "total_patterns"@ && r@[1].0@ == "socratic_patterns"@
            && r@[2].0@ == "systematic_patterns"@ && r@[0].1 == 0 && r@[1].1 == 0 && r@[2].1 == 0,
{
    if store_available {
        vec![(owned("total_patterns"), 0), (owned("socratic_patterns"), 0), (owned("systematic_patterns"), 0)]
    } else {
        Vec::new()
    }
}

/// One round of a saved reasoning pattern: its number, question, answer
/// and confidence (as text).
pub open spec fn round_line(i: nat, question: Seq<char>, answer: Seq<char>, confidence: Seq<char>) -> Seq<char> {
    "Round "@ + decimal_digits(i + 1) + ": "@ + question + "\nAnswer: "@ + answer + " (Confidence: "@ + confidence
        + ")"@
}

/// The rounds of a saved reasoning pattern, one line group per round.
pub open spec fn round_lines(rounds: Seq<(String, String, String)>) -> Seq<Seq<char>> {
    Seq::new(rounds.len(), |i: int| round_line(i as nat, rounds[i].0@, rounds[i].1@, rounds[i].2@))
}

/// The document a finished analysis is saved as.
pub open spec fn reasoning_text(
    prompt: Seq<char>,
    rounds: Seq<(String, String, String)>,
    solution: Seq<char>,
    mode_label: Seq<char>,
    average: Seq<char>,
) -> Seq<char> {
    "Deep Analysis Pattern\n\nOriginal Problem: "@ + prompt + "\n\nReasoning Process:\n"@ + join(
        round_lines(rounds),
        "\n\n"@,
    ) + "\n\nFinal Solution: "@ + solution + "\n\nPattern Summary: This is a successful "@ + mode_label
        + " analysis with "@ + decimal_digits(rounds.len()) + " reasoning rounds and average confidence of "@
        + average + "."@
}

/// The document a finished analysis is saved as: the problem, each round
/// (question, answer and confidence, the confidence already written as
/// text), the solution, and a summary naming the mode, the number of rounds
/// and the average confidence.
pub fn reasoning_document(
    prompt: &str,
    rounds: &Vec<(String, String, String)>,
    solution: &str,
    mode_label: &str,
    average: &str,
) -> (r: String)
    requires
        rounds@.len() < u64::MAX,
    ensures
        r@ == reasoning_text(prompt@, rounds@, solution@, mode_label@, average@),
{
    let mut lines: Vec<String> = Vec::new();
    let mut i: usize = 0;
    while i < rounds.len()
        invariant
            i <= rounds@.len(),
            rounds@.len() < u64::MAX,
            lines@.len() == i,
            forall|j: int| 0 <= j < i ==> (#[trigger] lines@[j])@ == round_lines(rounds@)[j],
        decreases rounds@.len() - i,
    {
        let mut line = owned("Round ");
        push_decimal(&mut line, (i + 1) as u64);
        append_str(&mut line, ": ");
        append_str(&mut line, rounds[i].0.as_str());
        append_str(&mut line, "\nAnswer: ");
        append_str(&mut line, rounds[i].1.as_str());
        append_str(&mut line, " (Confidence: ");
        append_str(&mut line, rounds[i].2.as_str());
        append_str(&mut line, ")");
        lines.push(line);
        i += 1;
    }
    assert(lines@.map_values(|p: String| p@) =~= round_lines(rounds@));
    let body = join_texts(&lines, "\n\n");
    let mut r = owned("Deep Analysis Pattern\n\nOriginal Problem: ");
    append_str(&mut r, prompt);
    append_str(&mut r, "\n\nReasoning Process:\n");
    append_str(&mut r, body.as_str());
    append_str(&mut r, "\n\nFinal Solution: ");
    append_str(&mut r, solution);
    append_str(&mut r, "\n\nPattern Summary: This is a successful ");
    append_str(&mut r, mode_label);
    append_str(&mut r, " analysis with ");
    push_decimal(&mut r, rounds.len() as u64);
    append_str(&mut r, " reasoning rounds and average confidence of ");
    append_str(&mut r, average);
    append_str(&mut r, ".");
    r
}

/// The metadata a saved reasoning pattern carries, as name and value pairs:
/// the problem type, the analysis mode (from the first question), the
/// number of rounds, the average confidence (as text) and the length of the
/// solution in bytes.
pub fn reasoning_metadata(
    prompt: &str,
    first_question: Option<&str>,
    rounds: usize,
    average: &str,
    solution: &str,
) -> (r: Vec<(String, String)>)
    ensures
        r@.len() == 5,
        r@[0].0@ == "problem_type"@ && r@[0].1@ == problem_type_of(prompt@),
        r@[1].0@ == "analysis_mode"@ && r@[1].1@ == match first_question {
            None => "unknown"@,
            Some(q) => if contains(lowercase(q@), "assumption"@) {
                "socratic"@
            } else {
                "systematic"@
            },
        },
        r@[2].0@ == "rounds"@ && r@[2].1@ == decimal_digits(rounds as nat),
        r@[3].0@ == "avg_confidence"@ && r@[3].1@ == average@,
        r@[4].0@ == "solution_length"@ && r@[4].1@ == decimal_digits(encode_utf8(solution@).len()),
{
    let (_title, lower) = reasoning_mode_label(first_question);
    let mut n = String::new();
    push_decimal(&mut n, rounds as u64);
    let mut len = String::new();
    let blen = solution.as_bytes().len();
    assert(solution.spec_bytes() == encode_utf8(solution@));
    push_decimal(&mut len, blen as u64);
    vec![
        (owned("problem_type"), classify_problem_type(prompt)),
        (owned("analysis_mode"), lower),
        (owned("rounds"), n),
        (owned("avg_confidence"), owned(average)),
        (owned("solution_length"), len),
    ]
}

/// A staged analysis runs one round per stage up to the limit, and never
/// more than the four stages.
pub proof fn law_rounds_bounded(max_rounds: usize)
    ensures
        planned_rounds(max_rounds) <= 4,
        planned_rounds(max_rounds) <= max_rounds,
        max_rounds >= 4 ==> planned_rounds(max_rounds) == 4,
{
}

/// How a problem is typed, by the words its lowercase form holds: any of
/// `debug`, `error`, `fix` makes it debugging; else `design` or
/// `architecture` design; else `optimize` or `performance` optimization;
/// else `refactor` or `improve` refactoring; else `implement` or `create`
/// implementation; else `explain` or `understand` explanation; a prompt
/// with none of these is general.
pub proof fn law_problem_words_decide_type(prompt: Seq<char>)
    ensures
        ({
            let l = lowercase(prompt);
            let t = problem_type_of(prompt);
            let debugging = contains(l, "debug"@) || contains(l, "error"@) || contains(l, "fix"@);
            let design = contains(l, "design"@) || contains(l, "architecture"@);
            let optimization = contains(l, "optimize"@) || contains(l, "performance"@);
            let refactoring = contains(l, "refactor"@) || contains(l, "improve"@);
            let implementation = contains(l, "implement"@) || contains(l, "create"@);
            let explanation = contains(l, "explain"@) || contains(l, "understand"@);
            &&& debugging ==> t == "debugging"@
            &&& !debugging && design ==> t == "design"@
            &&& !debugging && !design && optimization ==> t == "optimization"@
            &&& !debugging && !design && !optimization && refactoring ==> t == "refactoring"@
            &&& !debugging && !design && !optimization && !refactoring && implementation ==> t == "implementation"@
            &&& !debugging && !design && !optimization && !refactoring && !implementation && explanation ==> t
                == "explanation"@
            &&& !debugging && !design && !optimization && !refactoring && !implementation && !explanation ==> t
                == "general"@
        }),
{
}

} // verus!
