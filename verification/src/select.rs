//! Counting positions that satisfy a predicate, and choosing the oldest
//! entries by timestamp (ties broken either way).

use vstd::prelude::*;

verus! {

/// How many of the first `n` positions satisfy `p`.
pub open spec fn count_where(n: int, p: spec_fn(int) -> bool) -> nat
    decreases n,
{
    if n <= 0 {
        0
    } else {
        count_where(n - 1, p) + if p(n - 1) {
            1nat
        } else {
            0nat
        }
    }
}


/// At most `n` of the first `n` positions satisfy anything.
pub proof fn lemma_count_where_bound(n: int, p: spec_fn(int) -> bool)
    requires
        n >= 0,
    ensures
        count_where(n, p) <= n,
    decreases n,
{
    if n > 0 {
        lemma_count_where_bound(n - 1, p);
    }
}


/// Predicates that agree on the first `n` positions count alike.
pub proof fn lemma_count_where_ext(n: int, p: spec_fn(int) -> bool, q: spec_fn(int) -> bool)
    requires
        forall|i: int| 0 <= i < n ==> #[trigger] p(i) == q(i),
    ensures
        count_where(n, p) == count_where(n, q),
    decreases n,
{
    if n > 0 {
        lemma_count_where_ext(n - 1, p, q);
    }
}


/// If fewer positions are chosen than satisfy `p`, and chosen implies `p`,
/// some position satisfies `p` without being chosen.
pub proof fn lemma_unchosen_exists(n: int, p: spec_fn(int) -> bool, c: spec_fn(int) -> bool)
    requires
        n >= 0,
        forall|i: int| 0 <= i < n && #[trigger] c(i) ==> p(i),
        count_where(n, c) < count_where(n, p),
    ensures
        exists|i: int| 0 <= i < n && #[trigger] p(i) && !c(i),
    decreases n,
{
    if n > 0 {
        if p(n - 1) && !c(n - 1) {
        } else {
            lemma_unchosen_exists(n - 1, p, c);
        }
    }
}


/// Turning on one position that was off adds one to the count.
pub proof fn lemma_count_where_set(n: int, c: spec_fn(int) -> bool, d: spec_fn(int) -> bool, j: int)
    requires
        0 <= j < n,
        !c(j),
        d(j),
        forall|i: int| 0 <= i < n && i != j ==> #[trigger] c(i) == d(i),
    ensures
        count_where(n, d) == count_where(n, c) + 1,
    decreases n,
{
    if n - 1 == j {
        lemma_count_where_ext(n - 1, c, d);
    } else {
        lemma_count_where_set(n - 1, c, d, j);
    }
}


/// Every position satisfies the true predicate.
pub proof fn lemma_count_true(n: int)
    requires
        n >= 0,
    ensures
        count_where(n, |j: int| true) == n,
    decreases n,
{
    if n > 0 {
        lemma_count_true(n - 1);
    }
}

/// Nothing satisfies the false predicate.
pub proof fn lemma_count_false(n: int)
    ensures
        count_where(n, |j: int| false) == 0,
    decreases n,
{
    if n > 0 {
        lemma_count_false(n - 1);
    }
}


/// `chosen` marks `k` of the eligible positions, none with a later time than
/// an eligible position left unmarked.
pub open spec fn oldest_marked(times: Seq<u64>, eligible: Seq<bool>, chosen: Seq<bool>, k: nat) -> bool {
    &&& chosen.len() == times.len()
    &&& forall|i: int| 0 <= i < times.len() && #[trigger] chosen[i] ==> eligible[i]
    &&& count_where(times.len() as int, |i: int| chosen[i]) == k
    &&& forall|i: int, j: int|
        0 <= i < times.len() && 0 <= j < times.len() && chosen[i] && !chosen[j] && eligible[j]
            ==> #[trigger] times[i] <= #[trigger] times[j]
}

/// Marks the `k` eligible positions with the earliest times, one at a time,
/// each time the earliest among those not yet marked.
pub fn choose_oldest(times: &Vec<u64>, eligible: &Vec<bool>, k: usize) -> (chosen: Vec<bool>)
    requires
        eligible@.len() == times@.len(),
        k <= count_where(times@.len() as int, |i: int| eligible@[i]),
    ensures
        oldest_marked(times@, eligible@, chosen@, k as nat),
{
    let n = times.len();
    let mut chosen: Vec<bool> = Vec::new();
    let mut i: usize = 0;
    while i < n
        invariant
            n == times@.len(),
            i <= n,
            chosen@.len() == i,
            forall|j: int| 0 <= j < i ==> !chosen@[j],
        decreases n - i,
    {
        chosen.push(false);
        i += 1;
    }
    proof {
        lemma_count_where_ext(n as int, |j: int| chosen@[j], |j: int| false);
        lemma_count_false(n as int);
    }
    let mut round: usize = 0;
    while round < k
        invariant
            n == times@.len(),
            eligible@.len() == n,
            k <= count_where(n as int, |i: int| eligible@[i]),
            round <= k,
            chosen@.len() == n,
            forall|j: int| 0 <= j < n && #[trigger] chosen@[j] ==> eligible@[j],
            count_where(n as int, |j: int| chosen@[j]) == round,
            forall|a: int, b: int|
                0 <= a < n && 0 <= b < n && chosen@[a] && !chosen@[b] && eligible@[b]
                    ==> #[trigger] times@[a] <= #[trigger] times@[b],
        decreases k - round,
    {
        proof {
            lemma_unchosen_exists(n as int, |j: int| eligible@[j], |j: int| chosen@[j]);
        }
        let mut best: usize = n;
        let mut best_time: u64 = 0;
        let mut j: usize = 0;
        while j < n
            invariant
                n == times@.len(),
                eligible@.len() == n,
                chosen@.len() == n,
                j <= n,
                best == n || (best < j && eligible@[best as int] && !chosen@[best as int] && times@[best as int]
                    == best_time),
                best == n ==> forall|q: int| 0 <= q < j ==> !(eligible@[q] && !chosen@[q]),
                best < n ==> forall|q: int| 0 <= q < j && eligible@[q] && !chosen@[q] ==> best_time <= times@[q],
            decreases n - j,
        {
            if eligible[j] && !chosen[j] {
                if best == n || times[j] < best_time {
                    best = j;
                    best_time = times[j];
                }
            }
            j += 1;
        }
        assert(best < n);
        let ghost before = chosen@;
        chosen.set(best, true);
        proof {
            lemma_count_where_set(n as int, |q: int| before[q], |q: int| chosen@[q], best as int);
        }
        round += 1;
    }
    chosen
}

} // verus!
