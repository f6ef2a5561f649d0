//! File-name facts used across the assistant: extensions, the language a
//! file is written in, and which files of a repository walk are analysed.

use vstd::prelude::*;
use crate::text::{owned, str_equals, to_lowercase, lowercase};

verus! {

/// The extension of the last component of a path, as `Path::extension`
/// computes it (without the dot).
pub uninterp spec fn extension_of(path: Seq<char>) -> Option<Seq<char>>;

/// `Path::extension` of a path given as text, converted back to text. Its
/// result is named rather than described: component splitting and the rules
/// for leading dots are std's.
#[verifier::external_body]
pub(crate) fn path_extension(path: &str) -> (r: Option<String>)
    ensures
        match r {
            Some(e) => extension_of(path@) == Some(e@),
            None => extension_of(path@) is None,
        },
{
    std::path::Path::new(path).extension().map(|e| e.to_string_lossy().to_string())
}

/// The language name for a file extension; `plaintext` when it is not one
/// the assistant knows.
pub open spec fn language_for_extension(ext: Seq<char>) -> Seq<char> {
    if ext == "js"@ { "javascript"@ }
    else if ext == "ts"@ { "typescript"@ }
    else if ext == "jsx"@ { "jsx"@ }
    else if ext == "tsx"@ { "tsx"@ }
    else if ext == "py"@ { "python"@ }
    else if ext == "rs"@ { "rust"@ }
    else if ext == "go"@ { "go"@ }
    else if ext == "java"@ { "java"@ }
    else if ext == "c"@ { "c"@ }
    else if ext == "cpp"@ || ext == "cc"@ || ext == "cxx"@ { "cpp"@ }
    else if ext == "cs"@ { "csharp"@ }
    else if ext == "php"@ { "php"@ }
    else if ext == "rb"@ { "ruby"@ }
    else if ext == "swift"@ { "swift"@ }
    else if ext == "kt"@ || ext == "kts"@ { "kotlin"@ }
    else if ext == "scala"@ { "scala"@ }
    else if ext == "html"@ { "html"@ }
    else if ext == "css"@ { "css"@ }
    else if ext == "json"@ { "json"@ }
    else if ext == "md"@ { "markdown"@ }
    else if ext == "yml"@ || ext == "yaml"@ { "yaml"@ }
    else if ext == "xml"@ { "xml"@ }
    else if ext == "sh"@ || ext == "bash"@ { "bash"@ }
    else if ext == "sql"@ { "sql"@ }
    else { "plaintext"@ }
}

/// The language of a file, from the extension of its path.
pub open spec fn language_of_path(path: Seq<char>) -> Seq<char> {
    match extension_of(path) {
        Some(e) => language_for_extension(e),
        None => "plaintext"@,
    }
}

fn language_name(ext: &str) -> (r: String)
    ensures
        r@ == language_for_extension(ext@),
{
    let name = if str_equals(ext, "js") { "javascript" }
    else if str_equals(ext, "ts") { "typescript" }
    else if str_equals(ext, "jsx") { "jsx" }
    else if str_equals(ext, "tsx") { "tsx" }
    else if str_equals(ext, "py") { "python" }
    else if str_equals(ext, "rs") { "rust" }
    else if str_equals(ext, "go") { "go" }
    else if str_equals(ext, "java") { "java" }
    else if str_equals(ext, "c") { "c" }
    else if str_equals(ext, "cpp") || str_equals(ext, "cc") || str_equals(ext, "cxx") { "cpp" }
    else if str_equals(ext, "cs") { "csharp" }
    else if str_equals(ext, "php") { "php" }
    else if str_equals(ext, "rb") { "ruby" }
    else if str_equals(ext, "swift") { "swift" }
    else if str_equals(ext, "kt") || str_equals(ext, "kts") { "kotlin" }
    else if str_equals(ext, "scala") { "scala" }
    else if str_equals(ext, "html") { "html" }
    else if str_equals(ext, "css") { "css" }
    else if str_equals(ext, "json") { "json" }
    else if str_equals(ext, "md") { "markdown" }
    else if str_equals(ext, "yml") || str_equals(ext, "yaml") { "yaml" }
    else if str_equals(ext, "xml") { "xml" }
    else if str_equals(ext, "sh") || str_equals(ext, "bash") { "bash" }
    else if str_equals(ext, "sql") { "sql" }
    else { "plaintext" };
    owned(name)
}

/// The language a file is written in, judged by its extension.
pub fn detect_language(file_path: &str) -> (r: String)
    ensures
        r@ == language_of_path(file_path@),
{
    match path_extension(file_path) {
        Some(e) => language_name(e.as_str()),
        None => owned("plaintext"),
    }
}

/// The type of a file for display: its lowercased extension, or `unknown`.
pub open spec fn file_type_of(path: Seq<char>) -> Seq<char> {
    match extension_of(path) {
        Some(e) => lowercase(e),
        None => "unknown"@,
    }
}

/// The display type of a file.
pub fn file_type(file_path: &str) -> (r: String)
    ensures
        r@ == file_type_of(file_path@),
{
    match path_extension(file_path) {
        Some(e) => to_lowercase(e.as_str()),
        None => owned("unknown"),
    }
}

/// Whether the glob `pattern` matches `path`; a pattern that does not parse
/// matches nothing.
pub uninterp spec fn glob_matches(pattern: Seq<char>, path: Seq<char>) -> bool;

/// `glob::Pattern::new` followed by `Pattern::matches`; a pattern that does
/// not parse is taken as not matching. What matches is the glob crate's.
#[verifier::external_body]
pub(crate) fn pattern_matches(pattern: &str, path: &str) -> (r: bool)
    ensures
        r == glob_matches(pattern@, path@),
{
    glob::Pattern::new(pattern).map(|p| p.matches(path)).unwrap_or(false)
}

/// Some pattern of `patterns` matches `path`.
pub open spec fn any_matches(patterns: Seq<String>, path: Seq<char>) -> bool {
    exists|i: int| 0 <= i < patterns.len() && glob_matches(#[trigger] patterns[i]@, path)
}

fn any_pattern_matches(patterns: &Vec<String>, path: &str) -> (r: bool)
    ensures
        r == any_matches(patterns@, path@),
{
    let mut i: usize = 0;
    while i < patterns.len()
        invariant
            i <= patterns@.len(),
            forall|j: int| 0 <= j < i ==> !glob_matches(#[trigger] patterns@[j]@, path@),
        decreases patterns@.len() - i,
    {
        if pattern_matches(patterns[i].as_str(), path) {
            return true;
        }
        i += 1;
    }
    false
}

/// A file passes the filters when some wanted pattern matches it (or no
/// wanted list is given) and no exclude pattern matches it.
pub open spec fn passes_filters(path: Seq<char>, wanted: Option<Vec<String>>, exclude: Option<Vec<String>>) -> bool {
    (match wanted {
        Some(p) => any_matches(p@, path),
        None => true,
    }) && (match exclude {
        Some(p) => !any_matches(p@, path),
        None => true,
    })
}

/// What a repository walk does with the next entry.
#[derive(Clone, Copy, Debug, PartialEq, Eq, Structural)]
pub enum WalkStep {
    /// Enough files were collected: the walk ends.
    Stop,
    /// The entry is not analysed.
    Skip,
    /// The entry is collected.
    Take,
}

/// The most files a repository analysis collects: the given limit, or 100.
pub open spec fn walk_limit(max_files: Option<usize>) -> usize {
    match max_files {
        Some(n) => n,
        None => 100,
    }
}

/// Decides what a repository walk does with an entry, given how many files
/// are already collected: stop at the limit, skip what is not a file or
/// fails the filters, take the rest.
pub fn walk_step(
    collected: usize,
    max_files: Option<usize>,
    is_file: bool,
    path: &str,
    wanted: &Option<Vec<String>>,
    exclude: &Option<Vec<String>>,
) -> (r: WalkStep)
    ensures
        r == if collected >= walk_limit(max_files) {
            WalkStep::Stop
        } else if !is_file || !passes_filters(path@, *wanted, *exclude) {
            WalkStep::Skip
        } else {
            WalkStep::Take
        },
{
    let limit = match max_files {
        Some(n) => n,
        None => 100,
    };
    if collected >= limit {
        return WalkStep::Stop;
    }
    if !is_file {
        return WalkStep::Skip;
    }
    match wanted {
        Some(p) => {
            if !any_pattern_matches(p, path) {
                return WalkStep::Skip;
            }
        },
        None => {},
    }
    match exclude {
        Some(p) => {
            if any_pattern_matches(p, path) {
                return WalkStep::Skip;
            }
        },
        None => {},
    }
    WalkStep::Take
}

} // verus!
