//! Token budgeting for the prompt context: which files are pinned, what each
//! file is known to cost, how the window is split, and which suggested files
//! still fit.

use vstd::prelude::*;
use crate::text::{chars_of, chars_equal, other_than, owned};
use crate::files::{file_type, file_type_of};

verus! {

/// How the token window is split up.
#[derive(Clone, Copy, Debug, PartialEq, Eq, Structural)]
pub struct BudgetBreakdown {
    pub conversation: usize,
    pub rag_documents: usize,
    pub pinned_files: usize,
    pub suggested_files: usize,
    pub reserved: usize,
}

/// The token window, what is used of it and what is left.
#[derive(Clone, Copy, Debug, PartialEq, Eq, Structural)]
pub struct ContextBudget {
    pub total: usize,
    pub used: usize,
    pub available: usize,
    pub breakdown: BudgetBreakdown,
}

/// The views of a list of strings.
pub open spec fn views(v: Seq<String>) -> Seq<Seq<char>> {
    v.map_values(|s: String| s@)
}

/// The tokens that the pinned files cost, by the counts known so far (a file
/// whose count is unknown costs nothing).
pub open spec fn pinned_cost(pinned: Seq<Seq<char>>, cache: Map<Seq<char>, usize>) -> int
    decreases pinned.len(),
{
    if pinned.len() == 0 {
        0
    } else {
        pinned_cost(pinned.drop_last(), cache) + if cache.contains_key(pinned.last()) {
            cache[pinned.last()] as int
        } else {
            0
        }
    }
}

/// The budget for a window of `max` tokens with `reserved` held back, given
/// the tokens of the conversation, of retrieved documents and of pinned files.
pub open spec fn budget_of(max: usize, reserved: usize, conversation: usize, rag: usize, pinned: int) -> ContextBudget {
    let used: int = conversation + rag + pinned + reserved;
    let available: int = if used <= max { max - used } else { 0int };
    let suggested: int = if available <= max / 8 { available } else { (max / 8) as int };
    ContextBudget {
        total: max,
        used: used as usize,
        available: available as usize,
        breakdown: BudgetBreakdown {
            conversation,
            rag_documents: rag,
            pinned_files: pinned as usize,
            suggested_files: suggested as usize,
            reserved,
        },
    }
}

/// What `DefaultHasher::new` (whose keys are fixed) gives, after `finish`,
/// for a path hashed as a `str`.
pub uninterp spec fn path_digest(path: Seq<char>) -> u64;

/// Hashes a path with `DefaultHasher::new` and returns `finish`. The result
/// is named, not described.
#[verifier::external_body]
fn digest_path(path: &str) -> (r: u64)
    ensures
        r == path_digest(path@),
{
    let mut h = std::collections::hash_map::DefaultHasher::new();
    std::hash::Hash::hash(path, &mut h);
    std::hash::Hasher::finish(&h)
}

/// Token budgeting state: the window size, pinned files and known file costs.
pub struct ContextManager {
    pub max_tokens: usize,
    pub reserved_tokens: usize,
    pub pinned_files: Vec<String>,
    pub token_cache: Vec<(String, usize)>,
}

impl ContextManager {
    /// The pinned files, in pinning order.
    pub closed spec fn pinned(&self) -> Seq<Seq<char>> {
        views(self.pinned_files@)
    }

    /// The known token counts, by file path.
    pub closed spec fn cache(&self) -> Map<Seq<char>, usize> {
        Map::new(
            |k: Seq<char>| exists|i: int| 0 <= i < self.token_cache@.len() && self.token_cache@[i].0@ == k,
            |k: Seq<char>| self.token_cache@[choose|i: int| 0 <= i < self.token_cache@.len() && self.token_cache@[i].0@ == k].1,
        )
    }

    /// No file is pinned twice and every path has at most one known count.
    pub closed spec fn wf(&self) -> bool {
        &&& self.pinned().no_duplicates()
        &&& forall|i: int, j: int|
            0 <= i < j < self.token_cache@.len() ==> self.token_cache@[i].0@ != self.token_cache@[j].0@
    }

    /// A manager for a window of `max_tokens` with `reserved_tokens` held back.
    pub fn new(max_tokens: usize, reserved_tokens: usize) -> (r: Self)
        ensures
            r.wf(),
            r.max_tokens == max_tokens,
            r.reserved_tokens == reserved_tokens,
            r.pinned() == Seq::<Seq<char>>::empty(),
            r.cache() == Map::<Seq<char>, usize>::empty(),
    {
        let r = ContextManager {
            max_tokens,
            reserved_tokens,
            pinned_files: Vec::new(),
            token_cache: Vec::new(),
        };
        assert(r.pinned() =~= Seq::<Seq<char>>::empty());
        assert(r.cache() =~= Map::<Seq<char>, usize>::empty());
        r
    }

    fn pinned_index(&self, path: &str) -> (r: Option<usize>)
        ensures
            match r {
                Some(i) => i < self.pinned().len() && self.pinned()[i as int] == path@,
                None => !self.pinned().contains(path@),
            },
    {
        let p = chars_of(path);
        let mut i: usize = 0;
        while i < self.pinned_files.len()
            invariant
                i <= self.pinned_files@.len(),
                p@ == path@,
                forall|j: int| 0 <= j < i ==> self.pinned()[j] != path@,
            decreases self.pinned_files@.len() - i,
        {
            let q = chars_of(self.pinned_files[i].as_str());
            if chars_equal(q.as_slice(), p.as_slice()) {
                return Some(i);
            }
            i += 1;
        }
        None
    }

    fn cache_index(&self, path: &str) -> (r: Option<usize>)
        ensures
            match r {
                Some(i) => i < self.token_cache@.len() && self.token_cache@[i as int].0@ == path@,
                None => forall|j: int| 0 <= j < self.token_cache@.len() ==> self.token_cache@[j].0@ != path@,
            },
    {
        let p = chars_of(path);
        let mut i: usize = 0;
        while i < self.token_cache.len()
            invariant
                i <= self.token_cache@.len(),
                p@ == path@,
                forall|j: int| 0 <= j < i ==> self.token_cache@[j].0@ != path@,
            decreases self.token_cache@.len() - i,
        {
            let q = chars_of(self.token_cache[i].0.as_str());
            if chars_equal(q.as_slice(), p.as_slice()) {
                return Some(i);
            }
            i += 1;
        }
        None
    }

    /// Whether a file is pinned.
    pub fn is_file_pinned(&self, file_path: &str) -> (r: bool)
        ensures
            r == self.pinned().contains(file_path@),
    {
        self.pinned_index(file_path).is_some()
    }

    /// Pins a file so that it is always part of the context. Pinning a pinned
    /// file changes nothing.
    pub fn pin_file(&mut self, file_path: String) -> (r: Result<(), String>)
        requires
            old(self).wf(),
        ensures
            final(self).wf(),
            r is Ok,
            final(self).max_tokens == old(self).max_tokens,
            final(self).reserved_tokens == old(self).reserved_tokens,
            final(self).cache() == old(self).cache(),
            final(self).pinned() == if old(self).pinned().contains(file_path@) {
                old(self).pinned()
            } else {
                old(self).pinned().push(file_path@)
            },
    {
        let ghost before = self.pinned();
        if self.pinned_index(file_path.as_str()).is_none() {
            self.pinned_files.push(file_path);
            assert(self.pinned() =~= before.push(file_path@));
            proof {
                assert forall|i: int, j: int| 0 <= i < self.pinned().len() && 0 <= j < self.pinned().len() && i != j
                    implies self.pinned()[i] != self.pinned()[j] by {
                    if i == before.len() {
                        assert(before[j] == self.pinned()[j]);
                    } else if j == before.len() {
                        assert(before[i] == self.pinned()[i]);
                    }
                }
            }
        }
        Ok(())
    }

    /// Unpins a file; unpinning a file that is not pinned changes nothing.
    pub fn unpin_file(&mut self, file_path: String) -> (r: Result<(), String>)
        requires
            old(self).wf(),
        ensures
            final(self).wf(),
            r is Ok,
            final(self).max_tokens == old(self).max_tokens,
            final(self).reserved_tokens == old(self).reserved_tokens,
            final(self).cache() == old(self).cache(),
            final(self).pinned() == old(self).pinned().filter(other_than(file_path@)),
    {
        let ghost before = self.pinned();
        let p = chars_of(file_path.as_str());
        let mut kept: Vec<String> = Vec::new();
        let mut i: usize = 0;
        while i < self.pinned_files.len()
            invariant
                i <= self.pinned_files@.len(),
                p@ == file_path@,
                before == views(self.pinned_files@),
                views(kept@) == before.take(i as int).filter(other_than(file_path@)),
            decreases self.pinned_files@.len() - i,
        {
            let q = chars_of(self.pinned_files[i].as_str());
            let ghost t = before.take(i + 1);
            assert(t.drop_last() =~= before.take(i as int));
            reveal(Seq::filter);
            if !chars_equal(q.as_slice(), p.as_slice()) {
                kept.push(owned(self.pinned_files[i].as_str()));
                assert(views(kept@) =~= views(kept@.drop_last()).push(before[i as int]));
            }
            i += 1;
        }
        assert(before.take(before.len() as int) =~= before);
        self.pinned_files = kept;
        proof {
            broadcast use vstd::seq_lib::group_filter_ensures;
            lemma_filter_keeps_distinct(before, file_path@);
        }
        Ok(())
    }

    /// The pinned files, in pinning order.
    pub fn get_pinned_files(&self) -> (r: Vec<String>)
        ensures
            views(r@) == self.pinned(),
    {
        let mut r: Vec<String> = Vec::new();
        let mut i: usize = 0;
        while i < self.pinned_files.len()
            invariant
                i <= self.pinned_files@.len(),
                views(r@) == views(self.pinned_files@.take(i as int)),
            decreases self.pinned_files@.len() - i,
        {
            r.push(owned(self.pinned_files[i].as_str()));
            assert(views(self.pinned_files@.take(i + 1)) =~= views(self.pinned_files@.take(i as int)).push(self.pinned_files@[i as int]@));
            assert(views(r@) =~= views(r@.drop_last()).push(self.pinned_files@[i as int]@));
            i += 1;
        }
        assert(self.pinned_files@.take(self.pinned_files@.len() as int) =~= self.pinned_files@);
        r
    }

    /// The known token count of a file, if it has been counted.
    pub fn cached_tokens(&self, file_path: &str) -> (r: Option<usize>)
        requires
            self.wf(),
        ensures
            match r {
                Some(n) => self.cache().contains_key(file_path@) && self.cache()[file_path@] == n,
                None => !self.cache().contains_key(file_path@),
            },
    {
        match self.cache_index(file_path) {
            Some(i) => {
                let n = self.token_cache[i].1;
                proof {
                    let k = file_path@;
                    assert(self.cache().dom().contains(k));
                    let c = choose|j: int| 0 <= j < self.token_cache@.len() && self.token_cache@[j].0@ == k;
                    assert(c == i);
                }
                Some(n)
            },
            None => None,
        }
    }

    /// Records the token count of a file.
    pub fn record_file_tokens(&mut self, file_path: &str, tokens: usize)
        requires
            old(self).wf(),
        ensures
            final(self).wf(),
            final(self).max_tokens == old(self).max_tokens,
            final(self).reserved_tokens == old(self).reserved_tokens,
            final(self).pinned() == old(self).pinned(),
            final(self).cache() == old(self).cache().insert(file_path@, tokens),
    {
        let ghost before = self.cache();
        match self.cache_index(file_path) {
            Some(i) => {
                self.token_cache.set(i, (owned(file_path), tokens));
                proof {
                    assert forall|k: Seq<char>| #[trigger] self.cache().contains_key(k) == before.insert(file_path@, tokens).contains_key(k) by {
                        if k == file_path@ {
                            assert(self.token_cache@[i as int].0@ == k);
                        } else {
                            if before.contains_key(k) {
                                let c = choose|j: int| 0 <= j < old(self).token_cache@.len() && old(self).token_cache@[j].0@ == k;
                                assert(self.token_cache@[c].0@ == k);
                            }
                            if self.cache().contains_key(k) {
                                let c = choose|j: int| 0 <= j < self.token_cache@.len() && self.token_cache@[j].0@ == k;
                                assert(old(self).token_cache@[c].0@ == k);
                            }
                        }
                    }
                    assert forall|k: Seq<char>| self.cache().contains_key(k) implies #[trigger] self.cache()[k] == before.insert(file_path@, tokens)[k] by {
                        let c = choose|j: int| 0 <= j < self.token_cache@.len() && self.token_cache@[j].0@ == k;
                        if k == file_path@ {
                            assert(c == i);
                        } else {
                            let d = choose|j: int| 0 <= j < old(self).token_cache@.len() && old(self).token_cache@[j].0@ == k;
                            assert(self.token_cache@[d].0@ == k);
                            assert(c == d);
                        }
                    }
                    assert(self.cache() =~= before.insert(file_path@, tokens));
                }
            },
            None => {
                self.token_cache.push((owned(file_path), tokens));
                proof {
                    let n = self.token_cache@.len() - 1;
                    assert forall|k: Seq<char>| #[trigger] self.cache().contains_key(k) == before.insert(file_path@, tokens).contains_key(k) by {
                        if k == file_path@ {
                            assert(self.token_cache@[n].0@ == k);
                        } else {
                            if before.contains_key(k) {
                                let c = choose|j: int| 0 <= j < old(self).token_cache@.len() && old(self).token_cache@[j].0@ == k;
                                assert(self.token_cache@[c].0@ == k);
                            }
                            if self.cache().contains_key(k) {
                                let c = choose|j: int| 0 <= j < self.token_cache@.len() && self.token_cache@[j].0@ == k;
                                assert(c != n);
                                assert(old(self).token_cache@[c].0@ == k);
                            }
                        }
                    }
                    assert forall|k: Seq<char>| self.cache().contains_key(k) implies #[trigger] self.cache()[k] == before.insert(file_path@, tokens)[k] by {
                        let c = choose|j: int| 0 <= j < self.token_cache@.len() && self.token_cache@[j].0@ == k;
                        if k == file_path@ {
                            assert(c == n);
                        } else {
                            let d = choose|j: int| 0 <= j < old(self).token_cache@.len() && old(self).token_cache@[j].0@ == k;
                            assert(self.token_cache@[d].0@ == k);
                            assert(c == d);
                        }
                    }
                    assert(self.cache() =~= before.insert(file_path@, tokens));
                }
            },
        }
    }

    /// The display type of a file: its lowercased extension, or `unknown`.
    pub fn get_file_type(&self, file_path: &str) -> (r: String)
        ensures
            r@ == file_type_of(file_path@),
    {
        file_type(file_path)
    }

    /// How relevant a file is taken to be to the conversation, in hundredths:
    /// a score from 60 to 95 fixed by the file's path alone (the
    /// conversation is not consulted).
    pub fn calculate_file_relevance(&self, file_path: &str, conversation_context: &str) -> (r: u64)
        ensures
            r == 60 + path_digest(file_path@) % 36,
            60 <= r <= 95,
    {
        let h = digest_path(file_path);
        60 + h % 36
    }

    /// Forgets every known token count.
    pub fn clear_cache(&mut self)
        requires
            old(self).wf(),
        ensures
            final(self).wf(),
            final(self).max_tokens == old(self).max_tokens,
            final(self).reserved_tokens == old(self).reserved_tokens,
            final(self).pinned() == old(self).pinned(),
            final(self).cache() == Map::<Seq<char>, usize>::empty(),
    {
        self.token_cache = Vec::new();
        assert(self.cache() =~= Map::<Seq<char>, usize>::empty());
    }

    /// The tokens the pinned files cost by the known counts.
    fn pinned_tokens(&self) -> (r: usize)
        requires
            self.wf(),
            pinned_cost(self.pinned(), self.cache()) <= usize::MAX,
        ensures
            r == pinned_cost(self.pinned(), self.cache()),
    {
        let mut sum: usize = 0;
        let mut i: usize = 0;
        while i < self.pinned_files.len()
            invariant
                self.wf(),
                i <= self.pinned_files@.len(),
                sum == pinned_cost(self.pinned().take(i as int), self.cache()),
                pinned_cost(self.pinned(), self.cache()) <= usize::MAX,
            decreases self.pinned_files@.len() - i,
        {
            let ghost t = self.pinned().take(i + 1);
            assert(t.drop_last() =~= self.pinned().take(i as int));
            proof { lemma_pinned_cost_prefix(self.pinned(), self.cache(), i + 1); }
            let c = self.cached_tokens(self.pinned_files[i].as_str());
            match c {
                Some(n) => { sum = sum + n; },
                None => {},
            }
            i += 1;
        }
        assert(self.pinned().take(self.pinned().len() as int) =~= self.pinned());
        sum
    }

    /// Splits the window: used tokens are the conversation, the retrieved
    /// documents, the pinned files and the reserve; what is left is
    /// available (never below zero), and suggested files may take at most an
    /// eighth of the window out of it.
    pub fn calculate_budget(&self, conversation_tokens: usize, rag_tokens: usize) -> (b: ContextBudget)
        requires
            self.wf(),
            conversation_tokens + rag_tokens + pinned_cost(self.pinned(), self.cache())
                + self.reserved_tokens <= usize::MAX,
        ensures
            b == budget_of(self.max_tokens, self.reserved_tokens, conversation_tokens, rag_tokens,
                pinned_cost(self.pinned(), self.cache())),
    {
        proof { lemma_pinned_cost_nonneg(self.pinned(), self.cache()); }
        let pinned = self.pinned_tokens();
        let used = conversation_tokens + rag_tokens + pinned + self.reserved_tokens;
        let available = self.max_tokens.saturating_sub(used);
        let eighth = self.max_tokens / 8;
        let suggested = if available <= eighth { available } else { eighth };
        ContextBudget {
            total: self.max_tokens,
            used,
            available,
            breakdown: BudgetBreakdown {
                conversation: conversation_tokens,
                rag_documents: rag_tokens,
                pinned_files: pinned,
                suggested_files: suggested,
                reserved: self.reserved_tokens,
            },
        }
    }
}

/// A file chosen for the context, with what it costs.
pub struct ContextFileEntry {
    pub path: String,
    pub token_count: usize,
    pub is_pinned: bool,
    pub file_type: String,
}

/// What the context builder does with the next suggested file.
#[derive(Clone, Copy, Debug, PartialEq, Eq, Structural)]
pub enum SuggestionStep {
    /// The suggestion budget is spent: no further file is considered.
    Stop,
    /// The file is pinned and already part of the context.
    Skip,
    /// The file's token count is needed to decide.
    Count,
}

/// The tokens of the suggested (not pinned) entries.
pub open spec fn suggested_spent(files: Seq<ContextFileEntry>) -> int
    decreases files.len(),
{
    if files.len() == 0 {
        0
    } else {
        suggested_spent(files.drop_last()) + if files.last().is_pinned {
            0
        } else {
            files.last().token_count as int
        }
    }
}

/// The tokens of all entries.
pub open spec fn total_spent(files: Seq<ContextFileEntry>) -> int
    decreases files.len(),
{
    if files.len() == 0 {
        0
    } else {
        total_spent(files.drop_last()) + files.last().token_count as int
    }
}

/// A context being assembled: pinned files first, then suggested files while
/// they fit in what is left of the suggestion budget.
pub struct ContextPlan {
    pub files: Vec<ContextFileEntry>,
    pub budget: usize,
    pub remaining: usize,
}

impl ContextPlan {
    /// The suggested files spend exactly what the budget has lost.
    pub open spec fn wf(&self) -> bool {
        suggested_spent(self.files@) + self.remaining == self.budget
    }

    /// An empty plan with the suggestion budget of `budget`.
    pub fn new(budget: &ContextBudget) -> (r: Self)
        ensures
            r.wf(),
            r.files@.len() == 0,
            r.budget == budget.breakdown.suggested_files,
            r.remaining == budget.breakdown.suggested_files,
    {
        ContextPlan { files: Vec::new(), budget: budget.breakdown.suggested_files, remaining: budget.breakdown.suggested_files }
    }

    /// Adds a pinned file whose token count is known; pinned files do not
    /// draw on the suggestion budget.
    pub fn add_pinned(&mut self, path: &str, tokens: usize)
        requires
            old(self).wf(),
        ensures
            final(self).wf(),
            final(self).budget == old(self).budget,
            final(self).remaining == old(self).remaining,
            final(self).files@.len() == old(self).files@.len() + 1,
            final(self).files@.drop_last() == old(self).files@,
            final(self).files@.last().path@ == path@,
            final(self).files@.last().token_count == tokens,
            final(self).files@.last().is_pinned,
            final(self).files@.last().file_type@ == file_type_of(path@),
    {
        let e = ContextFileEntry { path: owned(path), token_count: tokens, is_pinned: true, file_type: file_type(path) };
        self.files.push(e);
        assert(self.files@.drop_last() =~= old(self).files@);
    }

    /// What to do with the next suggested file: stop once nothing of the
    /// budget is left, skip a pinned file, otherwise count its tokens.
    pub fn next_step(&self, path: &str, pinned: &Vec<String>) -> (r: SuggestionStep)
        ensures
            r == if self.remaining == 0 {
                SuggestionStep::Stop
            } else if views(pinned@).contains(path@) {
                SuggestionStep::Skip
            } else {
                SuggestionStep::Count
            },
    {
        if self.remaining == 0 {
            return SuggestionStep::Stop;
        }
        let p = chars_of(path);
        let mut i: usize = 0;
        while i < pinned.len()
            invariant
                i <= pinned@.len(),
                p@ == path@,
                self.remaining != 0,
                forall|j: int| 0 <= j < i ==> pinned@[j]@ != path@,
            decreases pinned@.len() - i,
        {
            let q = chars_of(pinned[i].as_str());
            if chars_equal(q.as_slice(), p.as_slice()) {
                assert(views(pinned@)[i as int] == path@);
                assert(views(pinned@).contains(path@));
                return SuggestionStep::Skip;
            }
            i += 1;
        }
        assert(!views(pinned@).contains(path@));
        SuggestionStep::Count
    }

    /// Offers a suggested file with its token count: it is taken when it fits
    /// in what is left, and then draws that much from the budget.
    pub fn offer(&mut self, path: &str, tokens: usize) -> (taken: bool)
        requires
            old(self).wf(),
        ensures
            final(self).wf(),
            final(self).budget == old(self).budget,
            taken == (tokens <= old(self).remaining),
            taken ==> {
                &&& final(self).remaining == old(self).remaining - tokens
                &&& final(self).files@.len() == old(self).files@.len() + 1
                &&& final(self).files@.drop_last() == old(self).files@
                &&& final(self).files@.last().path@ == path@
                &&& final(self).files@.last().token_count == tokens
                &&& !final(self).files@.last().is_pinned
                &&& final(self).files@.last().file_type@ == file_type_of(path@)
            },
            !taken ==> final(self).remaining == old(self).remaining && final(self).files@ == old(self).files@,
    {
        if tokens <= self.remaining {
            let e = ContextFileEntry { path: owned(path), token_count: tokens, is_pinned: false, file_type: file_type(path) };
            self.files.push(e);
            self.remaining = self.remaining - tokens;
            assert(self.files@.drop_last() =~= old(self).files@);
            true
        } else {
            false
        }
    }

    /// The tokens of the chosen files plus those of the conversation and of
    /// retrieved documents.
    pub fn total_tokens(&self, conversation_tokens: usize, rag_tokens: usize) -> (r: usize)
        requires
            total_spent(self.files@) + conversation_tokens + rag_tokens <= usize::MAX,
        ensures
            r == total_spent(self.files@) + conversation_tokens + rag_tokens,
    {
        let mut sum: usize = 0;
        let mut i: usize = 0;
        while i < self.files.len()
            invariant
                i <= self.files@.len(),
                sum == total_spent(self.files@.take(i as int)),
                total_spent(self.files@) + conversation_tokens + rag_tokens <= usize::MAX,
            decreases self.files@.len() - i,
        {
            proof {
                lemma_total_spent_prefix(self.files@, i + 1);
                assert(self.files@.take(i + 1).drop_last() =~= self.files@.take(i as int));
            }
            sum = sum + self.files[i].token_count;
            i += 1;
        }
        assert(self.files@.take(self.files@.len() as int) =~= self.files@);
        proof { lemma_total_spent_prefix(self.files@, self.files@.len() as int); }
        sum + conversation_tokens + rag_tokens
    }
}

proof fn lemma_total_spent_prefix(files: Seq<ContextFileEntry>, n: int)
    requires
        0 <= n <= files.len(),
    ensures
        0 <= total_spent(files.take(n)) <= total_spent(files),
    decreases files.len(),
{
    if files.len() > 0 {
        lemma_total_spent_prefix(files.drop_last(), if n < files.len() { n } else { files.len() - 1 });
        if n < files.len() {
            assert(files.drop_last().take(n) =~= files.take(n));
        } else {
            assert(files.take(n) =~= files);
            assert(files.drop_last().take(files.len() - 1) =~= files.drop_last());
        }
    } else {
        assert(files.take(n) =~= files);
    }
}

impl Default for ContextManager {
    /// A window of 128000 tokens with 25600 reserved.
    fn default() -> (r: Self)
        ensures
            r.wf(),
            r.max_tokens == 128000,
            r.reserved_tokens == 25600,
            r.pinned() == Seq::<Seq<char>>::empty(),
            r.cache() == Map::<Seq<char>, usize>::empty(),
    {
        ContextManager::new(128000, 25600)
    }
}

proof fn lemma_pinned_cost_nonneg(pinned: Seq<Seq<char>>, cache: Map<Seq<char>, usize>)
    ensures
        pinned_cost(pinned, cache) >= 0,
    decreases pinned.len(),
{
    if pinned.len() > 0 {
        lemma_pinned_cost_nonneg(pinned.drop_last(), cache);
    }
}

proof fn lemma_pinned_cost_prefix(pinned: Seq<Seq<char>>, cache: Map<Seq<char>, usize>, n: int)
    requires
        0 <= n <= pinned.len(),
    ensures
        pinned_cost(pinned.take(n), cache) <= pinned_cost(pinned, cache),
        pinned_cost(pinned.take(n), cache) >= 0,
    decreases pinned.len(),
{
    lemma_pinned_cost_nonneg(pinned.take(n), cache);
    if n < pinned.len() {
        assert(pinned.drop_last().take(n) =~= pinned.take(n));
        lemma_pinned_cost_prefix(pinned.drop_last(), cache, n);
        assert(pinned_cost(pinned, cache) >= pinned_cost(pinned.drop_last(), cache));
    } else {
        assert(pinned.take(n) =~= pinned);
    }
}

proof fn lemma_filter_keeps_distinct(s: Seq<Seq<char>>, x: Seq<char>)
    requires
        s.no_duplicates(),
    ensures
        s.filter(other_than(x)).no_duplicates(),
{
    broadcast use vstd::seq_lib::group_filter_ensures;
    let f = s.filter(other_than(x));
    assert forall|i: int, j: int| 0 <= i < f.len() && 0 <= j < f.len() && i != j implies f[i] != f[j] by {
        lemma_filter_distinct_inner(s, x, i, j);
    }
}

proof fn lemma_filter_distinct_inner(s: Seq<Seq<char>>, x: Seq<char>, i: int, j: int)
    requires
        s.no_duplicates(),
        0 <= i < s.filter(other_than(x)).len(),
        0 <= j < s.filter(other_than(x)).len(),
        i != j,
    ensures
        s.filter(other_than(x))[i] != s.filter(other_than(x))[j],
    decreases s.len(),
{
    reveal(Seq::filter);
    let f = s.filter(other_than(x));
    let g = s.drop_last().filter(other_than(x));
    assert(s.drop_last().no_duplicates());
    if s.last() != x {
        assert(f == g.push(s.last()));
        if i < g.len() && j < g.len() {
            lemma_filter_distinct_inner(s.drop_last(), x, i, j);
        } else {
            let k = if i < g.len() { i } else { j };
            assert(g.contains(g[k]));
            s.drop_last().lemma_filter_contains_rev(other_than(x), g[k]);
            assert(s.drop_last().contains(g[k]));
            let m = choose|m: int| 0 <= m < s.drop_last().len() && s.drop_last()[m] == g[k];
            assert(s[m] == g[k]);
            assert(s[s.len() - 1] == s.last());
        }
    } else {
        assert(f == g);
        lemma_filter_distinct_inner(s.drop_last(), x, i, j);
    }
}

/// File `a` comes before file `b` when its score is higher, or, the scores
/// being equal, when it came first.
pub open spec fn ranks_before(scores: Seq<u64>, a: int, b: int) -> bool {
    scores[a] > scores[b] || (scores[a] == scores[b] && a < b)
}

/// `order` lists each of the positions `0..n` once, most relevant first,
/// equal scores in their original order.
pub open spec fn relevance_order(scores: Seq<u64>, order: Seq<usize>, n: nat) -> bool {
    &&& order.len() == n
    &&& forall|i: int| 0 <= i < n ==> #[trigger] order[i] < n
    &&& forall|i: int, j: int| 0 <= i < j < n ==> order[i] != order[j]
    &&& forall|i: int, j: int| 0 <= i < j < n ==> ranks_before(scores, #[trigger] order[i] as int, #[trigger] order[j] as int)
}

/// The order in which the context's files are listed: by relevance score,
/// highest first, files of equal score in the order they were added (a
/// stable sort, as the listing's sort is).
pub fn order_by_relevance(scores: &Vec<u64>) -> (r: Vec<usize>)
    ensures
        relevance_order(scores@, r@, scores@.len()),
{
    let n = scores.len();
    let mut r: Vec<usize> = Vec::new();
    let mut k: usize = 0;
    while k < n
        invariant
            n == scores@.len(),
            k <= n,
            relevance_order(scores@, r@, k as nat),
        decreases n - k,
    {
        let sk = scores[k];
        let mut p: usize = 0;
        while p < r.len() && scores[r[p]] >= sk
            invariant
                n == scores@.len(),
                k < n,
                relevance_order(scores@, r@, k as nat),
                p <= r@.len(),
                forall|i: int| 0 <= i < p ==> scores@[#[trigger] r@[i] as int] >= sk,
            decreases r@.len() - p,
        {
            p += 1;
        }
        let ghost old_r = r@;
        proof {
            assert forall|i: int| p <= i < old_r.len() implies scores@[#[trigger] old_r[i] as int] < sk by {
                if p < old_r.len() {
                    assert(scores@[old_r[p as int] as int] < sk);
                    if i > p {
                        assert(ranks_before(scores@, old_r[p as int] as int, old_r[i] as int));
                    }
                }
            }
        }
        r.insert(p, k);
        proof {
            assert(r@ == old_r.insert(p as int, k));
            assert forall|i: int, j: int| 0 <= i < j < (k + 1) implies ranks_before(
                scores@,
                #[trigger] r@[i] as int,
                #[trigger] r@[j] as int,
            ) by {
                if j < p {
                    assert(r@[i] == old_r[i] && r@[j] == old_r[j]);
                } else if j == p {
                    assert(r@[i] == old_r[i]);
                    assert(old_r[i] < k);
                } else if i == p {
                    assert(r@[j] == old_r[j - 1]);
                    assert(scores@[old_r[j - 1] as int] < sk);
                } else if i < p {
                    assert(r@[i] == old_r[i] && r@[j] == old_r[j - 1]);
                } else {
                    assert(r@[i] == old_r[i - 1] && r@[j] == old_r[j - 1]);
                }
            }
            assert forall|i: int, j: int| 0 <= i < j < (k + 1) implies r@[i] != r@[j] by {
                if j < p {
                    assert(r@[i] == old_r[i] && r@[j] == old_r[j]);
                } else if j == p {
                    assert(r@[i] == old_r[i]);
                } else if i == p {
                    assert(r@[j] == old_r[j - 1]);
                } else if i < p {
                    assert(r@[i] == old_r[i] && r@[j] == old_r[j - 1]);
                } else {
                    assert(r@[i] == old_r[i - 1] && r@[j] == old_r[j - 1]);
                }
            }
            assert forall|i: int| 0 <= i < (k + 1) implies #[trigger] r@[i] < k + 1 by {
                if i < p {
                    assert(r@[i] == old_r[i]);
                } else if i > p {
                    assert(r@[i] == old_r[i - 1]);
                }
            }
        }
        k += 1;
    }
    r
}

/// A sequence without `x` is kept whole by filtering `x` out.
proof fn lemma_filter_keeps_all(s: Seq<Seq<char>>, x: Seq<char>)
    requires
        !s.contains(x),
    ensures
        s.filter(other_than(x)) == s,
    decreases s.len(),
{
    reveal_with_fuel(Seq::filter, 1);
    if s.len() > 0 {
        assert(!s.drop_last().contains(x)) by {
            if s.drop_last().contains(x) {
                let i = choose|i: int| 0 <= i < s.drop_last().len() && s.drop_last()[i] == x;
                assert(s[i] == x);
            }
        }
        lemma_filter_keeps_all(s.drop_last(), x);
        assert(s.last() != x) by {
            assert(s[s.len() - 1] == s.last());
        }
        assert(s.drop_last().push(s.last()) =~= s);
    }
}

/// Unpinning a file that pinning added leaves the pinned files as they were
/// before it was pinned.
pub proof fn law_unpin_undoes_pin(pinned: Seq<Seq<char>>, path: Seq<char>)
    requires
        !pinned.contains(path),
    ensures
        (if pinned.contains(path) {
            pinned
        } else {
            pinned.push(path)
        }).filter(other_than(path)) == pinned,
{
    reveal_with_fuel(Seq::filter, 1);
    assert(pinned.push(path).drop_last() =~= pinned);
    assert(pinned.push(path).last() == path);
    lemma_filter_keeps_all(pinned, path);
}

/// A budget splits the window: the used tokens are the conversation, the
/// retrieved documents, the pinned files and the reserve together; used and
/// available tokens fill the window exactly while it is not overrun, and
/// nothing is available once it is; the suggestion allowance is the smaller
/// of what is available and an eighth of the window.
pub proof fn law_budget_splits_window(max: usize, reserved: usize, conversation: usize, rag: usize, pinned: int)
    requires
        pinned >= 0,
        conversation + rag + pinned + reserved <= usize::MAX,
    ensures
        ({
            let b = budget_of(max, reserved, conversation, rag, pinned);
            &&& b.total == max
            &&& b.used == conversation + rag + pinned + reserved
            &&& b.used <= max ==> b.used + b.available == max
            &&& b.used > max ==> b.available == 0
            &&& b.breakdown.suggested_files <= b.available
            &&& b.breakdown.suggested_files <= max / 8
            &&& b.breakdown.suggested_files == b.available || b.breakdown.suggested_files == max / 8
            &&& b.breakdown.conversation == conversation
            &&& b.breakdown.rag_documents == rag
            &&& b.breakdown.pinned_files == pinned
            &&& b.breakdown.reserved == reserved
        }),
{
}

} // verus!
