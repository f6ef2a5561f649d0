//! The operation registry: queued, running and finished backend operations,
//! their cancellation, clean-up, per-priority queues and memory accounting.

use vstd::prelude::*;
use crate::keyed::StrMap;
use crate::text::owned;
use crate::clock::unix_seconds;
use crate::select::{count_where, lemma_count_where_ext, lemma_unchosen_exists, lemma_count_where_set, lemma_count_false};

verus! {

/// What an operation does.
#[derive(Clone, Copy, Debug, PartialEq, Eq, Hash, Structural)]
pub enum OperationType {
    AICompletion,
    FileAnalysis,
    DocumentIndexing,
    CodeGeneration,
    RagQuery,
    ModelLoading,
}

/// How urgent an operation is; `Critical` is served first.
#[derive(Clone, Copy, Debug, PartialEq, Eq, PartialOrd, Ord, Hash, Structural)]
pub enum OperationPriority {
    Critical,
    High,
    Normal,
    Background,
    Maintenance,
}

/// The queue level of a priority: 0 for `Critical` up to 4 for `Maintenance`.
pub open spec fn level_of(p: OperationPriority) -> usize {
    match p {
        OperationPriority::Critical => 0,
        OperationPriority::High => 1,
        OperationPriority::Normal => 2,
        OperationPriority::Background => 3,
        OperationPriority::Maintenance => 4,
    }
}

/// A more urgent priority is queued at a strictly lower level, so it is
/// served first: `Critical`, then `High`, `Normal`, `Background` and last
/// `Maintenance`; no two priorities share a level.
pub proof fn law_more_urgent_priority_lower_level(p: OperationPriority, q: OperationPriority)
    ensures
        level_of(OperationPriority::Critical) < level_of(OperationPriority::High),
        level_of(OperationPriority::High) < level_of(OperationPriority::Normal),
        level_of(OperationPriority::Normal) < level_of(OperationPriority::Background),
        level_of(OperationPriority::Background) < level_of(OperationPriority::Maintenance),
        level_of(p) == level_of(q) ==> p == q,
{
}

impl OperationPriority {
    /// The queue level of this priority.
    pub fn level(&self) -> (r: usize)
        ensures
            r == level_of(*self),
            r < 5,
    {
        match self {
            OperationPriority::Critical => 0,
            OperationPriority::High => 1,
            OperationPriority::Normal => 2,
            OperationPriority::Background => 3,
            OperationPriority::Maintenance => 4,
        }
    }
}

/// What an operation is estimated to need.
#[derive(Clone, Copy, Debug, PartialEq, Eq, Structural)]
pub struct ResourceRequirements {
    pub cpu_units: u32,
    pub memory_mb: u32,
    pub io_intensity: u32,
    pub network_kb: u32,
}

/// A unit of backend work. The payload is carried as JSON text.
#[derive(Debug)]
pub struct Operation {
    pub id: String,
    pub op_type: OperationType,
    pub priority: OperationPriority,
    pub created_at: u64,
    pub estimated_resources: ResourceRequirements,
    pub timeout_ms: Option<u64>,
    pub cancellable: bool,
    pub payload: String,
    pub completed_at: Option<u64>,
    pub memory_used: Option<u64>,
}

/// Where an operation is in its life. Results and errors are carried as text.
#[derive(Debug, PartialEq)]
pub enum OperationStatus {
    Queued,
    Running,
    Completed { result: Option<String> },
    Failed { error: String },
    Cancelled,
    TimedOut,
}

fn copy_text(s: &Option<String>) -> (r: Option<String>)
    ensures
        r == *s,
{
    match s {
        Some(t) => Some(t.clone()),
        None => None,
    }
}

impl Operation {
    /// A copy of the operation.
    pub fn duplicate(&self) -> (r: Operation)
        ensures
            r == *self,
    {
        Operation {
            id: self.id.clone(),
            op_type: self.op_type,
            priority: self.priority,
            created_at: self.created_at,
            estimated_resources: self.estimated_resources,
            timeout_ms: self.timeout_ms,
            cancellable: self.cancellable,
            payload: self.payload.clone(),
            completed_at: self.completed_at,
            memory_used: self.memory_used,
        }
    }
}

impl OperationStatus {
    /// A copy of the status.
    pub fn duplicate(&self) -> (r: OperationStatus)
        ensures
            r == *self,
    {
        match self {
            OperationStatus::Queued => OperationStatus::Queued,
            OperationStatus::Running => OperationStatus::Running,
            OperationStatus::Completed { result } => OperationStatus::Completed { result: copy_text(result) },
            OperationStatus::Failed { error } => OperationStatus::Failed { error: error.clone() },
            OperationStatus::Cancelled => OperationStatus::Cancelled,
            OperationStatus::TimedOut => OperationStatus::TimedOut,
        }
    }
}

/// When finished operations are dropped from the registry.
#[derive(Clone, Copy, Debug, PartialEq, Eq, Structural)]
pub struct CleanupConfig {
    pub cleanup_interval_seconds: u64,
    pub max_completed_operations: usize,
    pub max_operation_age_seconds: u64,
    pub cleanup_failed_operations: bool,
}

impl Default for CleanupConfig {
    /// Every 5 minutes; keep at most 1000 completed operations and nothing
    /// finished for more than an hour; failed operations are cleaned too.
    fn default() -> (r: Self)
        ensures
            r.cleanup_interval_seconds == 300,
            r.max_completed_operations == 1000,
            r.max_operation_age_seconds == 3600,
            r.cleanup_failed_operations,
    {
        CleanupConfig {
            cleanup_interval_seconds: 300,
            max_completed_operations: 1000,
            max_operation_age_seconds: 3600,
            cleanup_failed_operations: true,
        }
    }
}

/// Memory booked by running operations.
pub struct MemoryMonitor {
    pub current_usage: u64,
    pub peak_usage: u64,
    pub operations_memory: StrMap<u64>,
}

impl MemoryMonitor {
    /// Well formed: the allocation map has distinct keys.
    pub open spec fn wf(&self) -> bool {
        self.operations_memory.wf()
    }

    /// Nothing booked.
    pub fn new() -> (r: Self)
        ensures
            r.wf(),
            r.current_usage == 0,
            r.peak_usage == 0,
            r.operations_memory@ == Map::<Seq<char>, u64>::empty(),
    {
        MemoryMonitor { current_usage: 0, peak_usage: 0, operations_memory: StrMap::new() }
    }

    /// Books `bytes` for an operation (replacing what it had booked in the
    /// map, while the running total grows by `bytes`); the peak follows the
    /// total upwards.
    pub fn allocate(&mut self, operation_id: &str, bytes: u64)
        requires
            old(self).wf(),
            old(self).current_usage + bytes <= u64::MAX,
        ensures
            final(self).wf(),
            final(self).operations_memory@ == old(self).operations_memory@.insert(operation_id@, bytes),
            final(self).current_usage == old(self).current_usage + bytes,
            final(self).peak_usage == if old(self).current_usage + bytes > old(self).peak_usage {
                (old(self).current_usage + bytes) as u64
            } else {
                old(self).peak_usage
            },
    {
        self.operations_memory.insert(owned(operation_id), bytes);
        self.current_usage = self.current_usage + bytes;
        if self.current_usage > self.peak_usage {
            self.peak_usage = self.current_usage;
        }
    }

    /// Releases what an operation had booked, if anything, and returns it;
    /// the running total drops by it (wrapping as an atomic counter does).
    pub fn deallocate(&mut self, operation_id: &str) -> (r: Option<u64>)
        requires
            old(self).wf(),
        ensures
            final(self).wf(),
            final(self).operations_memory@ == old(self).operations_memory@.remove(operation_id@),
            final(self).peak_usage == old(self).peak_usage,
            match r {
                Some(b) => old(self).operations_memory@.contains_key(operation_id@)
                    && b == old(self).operations_memory@[operation_id@]
                    && final(self).current_usage == old(self).current_usage.wrapping_sub(b),
                None => !old(self).operations_memory@.contains_key(operation_id@)
                    && final(self).current_usage == old(self).current_usage,
            },
    {
        match self.operations_memory.remove(operation_id) {
            Some(b) => {
                self.current_usage = self.current_usage.wrapping_sub(b);
                Some(b)
            },
            None => None,
        }
    }

    /// The running total.
    pub fn current_usage(&self) -> (r: u64)
        ensures
            r == self.current_usage,
    {
        self.current_usage
    }

    /// The highest total seen.
    pub fn peak_usage(&self) -> (r: u64)
        ensures
            r == self.peak_usage,
    {
        self.peak_usage
    }
}

/// Registry counts for monitoring.
#[derive(Clone, Copy, Debug, PartialEq, Eq, Structural)]
pub struct MemoryStats {
    pub current_usage: u64,
    pub peak_usage: u64,
    pub operation_count: usize,
    pub active_operations: usize,
}

/// How many operations are in each state.
#[derive(Clone, Copy, Debug, PartialEq, Eq, Structural)]
pub struct StatusCounts {
    pub queued: usize,
    pub running: usize,
    pub completed: usize,
    pub failed: usize,
    pub cancelled: usize,
    pub timed_out: usize,
}

/// The kind of a status, without its payload.
pub open spec fn status_kind(s: OperationStatus) -> int {
    match s {
        OperationStatus::Queued => 0,
        OperationStatus::Running => 1,
        OperationStatus::Completed { .. } => 2,
        OperationStatus::Failed { .. } => 3,
        OperationStatus::Cancelled => 4,
        OperationStatus::TimedOut => 5,
    }
}

/// How many of the entries have a status of kind `kind`.
pub open spec fn count_kind(vals: Seq<(Operation, OperationStatus)>, kind: int) -> nat
    decreases vals.len(),
{
    if vals.len() == 0 {
        0
    } else {
        count_kind(vals.drop_last(), kind) + if status_kind(vals.last().1) == kind {
            1nat
        } else {
            0nat
        }
    }
}

proof fn lemma_count_kind_bound(vals: Seq<(Operation, OperationStatus)>, kind: int)
    ensures
        count_kind(vals, kind) <= vals.len(),
    decreases vals.len(),
{
    if vals.len() > 0 {
        lemma_count_kind_bound(vals.drop_last(), kind);
    }
}

/// Cancelling succeeds for a queued operation, and for a running one that is
/// cancellable.
pub open spec fn can_cancel(entry: (Operation, OperationStatus)) -> bool {
    entry.1 == OperationStatus::Queued || (entry.1 == OperationStatus::Running && entry.0.cancellable)
}

/// The limits operations run under: how many may run at once, the memory
/// they may book, the processor share (in whole percent) and whether input
/// and output are throttled.
#[derive(Clone, Copy, Debug, PartialEq, Eq, Structural)]
pub struct ResourceLimits {
    pub max_concurrent_operations: usize,
    pub max_memory_usage: u64,
    pub max_cpu_usage: u32,
    pub io_throttling: bool,
}

/// The registry of operations, keyed by operation id, with the limits they
/// run under, the memory they book and the clean-up policy.
pub struct OperationManager {
    pub operations: StrMap<(Operation, OperationStatus)>,
    pub resource_limits: ResourceLimits,
    pub cleanup_config: CleanupConfig,
    pub memory_monitor: MemoryMonitor,
}

impl OperationManager {
    /// Both maps have distinct keys.
    pub open spec fn wf(&self) -> bool {
        self.operations.wf() && self.memory_monitor.wf()
    }

    /// An empty registry under the given limits with the default clean-up
    /// policy.
    pub fn new(resource_limits: ResourceLimits) -> (r: Self)
        ensures
            r.wf(),
            r.resource_limits == resource_limits,
            r.operations@ == Map::<Seq<char>, (Operation, OperationStatus)>::empty(),
            r.cleanup_config == (CleanupConfig {
                cleanup_interval_seconds: 300,
                max_completed_operations: 1000,
                max_operation_age_seconds: 3600,
                cleanup_failed_operations: true,
            }),
            r.operations.keys() == Seq::<Seq<char>>::empty(),
            r.memory_monitor.current_usage == 0,
            r.memory_monitor.peak_usage == 0,
            r.memory_monitor.operations_memory@ == Map::<Seq<char>, u64>::empty(),
    {
        Self::new_with_cleanup(resource_limits, CleanupConfig::default())
    }

    /// An empty registry under the given limits and clean-up policy.
    pub fn new_with_cleanup(resource_limits: ResourceLimits, cleanup_config: CleanupConfig) -> (r: Self)
        ensures
            r.wf(),
            r.resource_limits == resource_limits,
            r.operations@ == Map::<Seq<char>, (Operation, OperationStatus)>::empty(),
            r.operations.keys() == Seq::<Seq<char>>::empty(),
            r.cleanup_config == cleanup_config,
            r.memory_monitor.current_usage == 0,
            r.memory_monitor.peak_usage == 0,
            r.memory_monitor.operations_memory@ == Map::<Seq<char>, u64>::empty(),
    {
        OperationManager {
            operations: StrMap::new(),
            resource_limits,
            cleanup_config,
            memory_monitor: MemoryMonitor::new(),
        }
    }

    /// A new cancellable operation created at `created_at`, with no timeout
    /// and nothing recorded of its completion.
    pub fn create_operation_at(
        id: String,
        op_type: OperationType,
        priority: OperationPriority,
        estimated_resources: ResourceRequirements,
        payload: String,
        created_at: u64,
    ) -> (r: Operation)
        ensures
            r == (Operation {
                id,
                op_type,
                priority,
                created_at,
                estimated_resources,
                timeout_ms: None,
                cancellable: true,
                payload,
                completed_at: None,
                memory_used: None,
            }),
    {
        Operation {
            id,
            op_type,
            priority,
            created_at,
            estimated_resources,
            timeout_ms: None,
            cancellable: true,
            payload,
            completed_at: None,
            memory_used: None,
        }
    }

    /// A new cancellable operation stamped with the current time.
    pub fn create_operation(
        id: String,
        op_type: OperationType,
        priority: OperationPriority,
        estimated_resources: ResourceRequirements,
        payload: String,
    ) -> (r: Operation)
        ensures
            r.id == id,
            r.op_type == op_type,
            r.priority == priority,
            r.estimated_resources == estimated_resources,
            r.timeout_ms is None,
            r.cancellable,
            r.payload == payload,
            r.completed_at is None,
            r.memory_used is None,
    {
        let now = unix_seconds();
        Self::create_operation_at(id, op_type, priority, estimated_resources, payload, now)
    }

    /// Records an operation as queued (clearing what it says of completion)
    /// and returns its id; a previous entry under the same id is replaced.
    pub fn enqueue_operation(&mut self, operation: Operation) -> (r: String)
        requires
            old(self).wf(),
        ensures
            final(self).wf(),
            r@ == operation.id@,
            final(self).operations@ == old(self).operations@.insert(operation.id@, (
                Operation { completed_at: None, memory_used: None, ..operation },
                OperationStatus::Queued,
            )),
            final(self).cleanup_config == old(self).cleanup_config,
            final(self).resource_limits == old(self).resource_limits,
            final(self).memory_monitor == old(self).memory_monitor,
    {
        let mut op = operation;
        op.completed_at = None;
        op.memory_used = None;
        let id = op.id.clone();
        let key = op.id.clone();
        self.operations.insert(key, (op, OperationStatus::Queued));
        id
    }

    /// The status of an operation, if it is known.
    pub fn get_operation_status(&self, operation_id: &str) -> (r: Option<OperationStatus>)
        requires
            self.wf(),
        ensures
            match r {
                Some(s) => self.operations@.contains_key(operation_id@) && s == self.operations@[operation_id@].1,
                None => !self.operations@.contains_key(operation_id@),
            },
    {
        match self.operations.get(operation_id) {
            Some(e) => Some(e.1.duplicate()),
            None => None,
        }
    }

    /// Cancels an operation: allowed while it is queued, or while it runs if
    /// it is cancellable. Otherwise the error says why and nothing changes.
    pub fn cancel_operation(&mut self, operation_id: &str) -> (r: Result<(), String>)
        requires
            old(self).wf(),
        ensures
            final(self).wf(),
            final(self).cleanup_config == old(self).cleanup_config,
            final(self).memory_monitor == old(self).memory_monitor,
            !old(self).operations@.contains_key(operation_id@) ==> (r matches Err(e) && e@
                == "Operation not found"@) && final(self).operations@ == old(self).operations@,
            old(self).operations@.contains_key(operation_id@) && !can_cancel(
                old(self).operations@[operation_id@],
            ) ==> (r matches Err(e) && e@ == "Operation cannot be cancelled in its current state"@)
                && final(self).operations@ == old(self).operations@,
            old(self).operations@.contains_key(operation_id@) && can_cancel(
                old(self).operations@[operation_id@],
            ) ==> r is Ok && final(self).operations@ == old(self).operations@.insert(
                operation_id@,
                (old(self).operations@[operation_id@].0, OperationStatus::Cancelled),
            ),
    {
        match self.operations.get(operation_id) {
            Some(e) => {
                let allowed = match e.1 {
                    OperationStatus::Queued => true,
                    OperationStatus::Running => e.0.cancellable,
                    _ => false,
                };
                if allowed {
                    let op = e.0.duplicate();
                    self.operations.insert(owned(operation_id), (op, OperationStatus::Cancelled));
                    Ok(())
                } else {
                    Err(owned("Operation cannot be cancelled in its current state"))
                }
            },
            None => Err(owned("Operation not found")),
        }
    }

    /// Marks an operation as running under its id (the scheduler does this
    /// when it takes the operation off its queue).
    pub fn mark_running(&mut self, operation: Operation)
        requires
            old(self).wf(),
        ensures
            final(self).wf(),
            final(self).operations@ == old(self).operations@.insert(operation.id@, (operation, OperationStatus::Running)),
            final(self).cleanup_config == old(self).cleanup_config,
            final(self).resource_limits == old(self).resource_limits,
            final(self).memory_monitor == old(self).memory_monitor,
    {
        let key = operation.id.clone();
        self.operations.insert(key, (operation, OperationStatus::Running));
    }

    /// Records how an operation ended: the operation is stamped with its
    /// completion time and memory, and its status becomes `Completed` with
    /// the result or `Failed` with the error.
    pub fn record_outcome(&mut self, operation: Operation, completed_at: u64, memory_used: u64, outcome: Result<String, String>)
        requires
            old(self).wf(),
        ensures
            final(self).wf(),
            final(self).cleanup_config == old(self).cleanup_config,
            final(self).memory_monitor == old(self).memory_monitor,
            final(self).operations@ == old(self).operations@.insert(
                operation.id@,
                (
                    Operation { completed_at: Some(completed_at), memory_used: Some(memory_used), ..operation },
                    match outcome {
                        Ok(v) => OperationStatus::Completed { result: Some(v) },
                        Err(e) => OperationStatus::Failed { error: e },
                    },
                ),
            ),
    {
        let mut op = operation;
        op.completed_at = Some(completed_at);
        op.memory_used = Some(memory_used);
        let status = match outcome {
            Ok(v) => OperationStatus::Completed { result: Some(v) },
            Err(e) => OperationStatus::Failed { error: e },
        };
        let key = op.id.clone();
        self.operations.insert(key, (op, status));
    }

    fn count_status(&self, kind: u8) -> (r: usize)
        requires
            self.wf(),
        ensures
            r == count_kind(self.operations.values(), kind as int),
    {
        let ghost vals = self.operations.values();
        proof { self.operations.lemma_view(); }
        let mut n: usize = 0;
        let mut i: usize = 0;
        while i < self.operations.len()
            invariant
                self.wf(),
                vals == self.operations.values(),
                vals.len() == self.operations.keys().len(),
                i <= vals.len(),
                n == count_kind(vals.take(i as int), kind as int),
                n <= i,
            decreases vals.len() - i,
        {
            let (_k, e) = self.operations.entry_at(i);
            let k: u8 = match e.1 {
                OperationStatus::Queued => 0,
                OperationStatus::Running => 1,
                OperationStatus::Completed { .. } => 2,
                OperationStatus::Failed { .. } => 3,
                OperationStatus::Cancelled => 4,
                OperationStatus::TimedOut => 5,
            };
            assert(vals.take(i + 1).drop_last() =~= vals.take(i as int));
            if k == kind {
                n += 1;
            }
            i += 1;
        }
        assert(vals.take(vals.len() as int) =~= vals);
        n
    }

    /// How many operations are in each state.
    pub fn get_operations_by_status(&self) -> (r: StatusCounts)
        requires
            self.wf(),
        ensures
            r.queued == count_kind(self.operations.values(), 0),
            r.running == count_kind(self.operations.values(), 1),
            r.completed == count_kind(self.operations.values(), 2),
            r.failed == count_kind(self.operations.values(), 3),
            r.cancelled == count_kind(self.operations.values(), 4),
            r.timed_out == count_kind(self.operations.values(), 5),
    {
        StatusCounts {
            queued: self.count_status(0),
            running: self.count_status(1),
            completed: self.count_status(2),
            failed: self.count_status(3),
            cancelled: self.count_status(4),
            timed_out: self.count_status(5),
        }
    }

    /// The memory totals, the number of operations and how many run.
    pub fn get_memory_stats(&self) -> (r: MemoryStats)
        requires
            self.wf(),
        ensures
            r.current_usage == self.memory_monitor.current_usage,
            r.peak_usage == self.memory_monitor.peak_usage,
            r.operation_count == self.operations.keys().len(),
            r.active_operations == count_kind(self.operations.values(), 1),
    {
        MemoryStats {
            current_usage: self.memory_monitor.current_usage(),
            peak_usage: self.memory_monitor.peak_usage(),
            operation_count: self.operations.len(),
            active_operations: self.count_status(1),
        }
    }
}


/// Every entry of the registry has the times a clean-up pass at `now` ages
/// it from at or before `now` (the clock may stand before them).
pub open spec fn ages_defined(m: OperationManager, now: u64) -> bool {
    forall|i: int| 0 <= i < m.operations.values().len() ==> age_defined(
        #[trigger] m.operations.values()[i],
        now,
        m.cleanup_config,
    )
}

/// Statistics of one clean-up pass.
#[derive(Clone, Copy, Debug, Default, PartialEq, Eq, Structural)]
pub struct CleanupStats {
    pub operations_removed: usize,
    pub memory_freed: u64,
    pub completed_removed: usize,
    pub failed_removed: usize,
    pub cancelled_removed: usize,
    pub timed_out_removed: usize,
}

/// The entry's status is `Completed`.
pub open spec fn is_completed(e: (Operation, OperationStatus)) -> bool {
    status_kind(e.1) == 2
}

/// The clean-up arithmetic on this entry stays within the clock: the time it
/// is aged from is not after `now`.
pub open spec fn age_defined(e: (Operation, OperationStatus), now: u64, cfg: CleanupConfig) -> bool {
    match e.1 {
        OperationStatus::Completed { .. } => match e.0.completed_at {
            Some(c) => c <= now,
            None => e.0.created_at <= now,
        },
        OperationStatus::Failed { .. } => cfg.cleanup_failed_operations ==> e.0.created_at <= now,
        OperationStatus::Cancelled => e.0.created_at <= now,
        OperationStatus::TimedOut => e.0.created_at <= now,
        _ => true,
    }
}

/// A finished entry is too old: completed ones are aged from completion (or
/// creation when no completion time is known), failed ones only when failed
/// operations are cleaned, cancelled and timed-out ones from creation.
/// Queued and running entries never age out.
pub open spec fn aged_out(e: (Operation, OperationStatus), now: u64, cfg: CleanupConfig) -> bool {
    match e.1 {
        OperationStatus::Completed { .. } => match e.0.completed_at {
            Some(c) => now - c > cfg.max_operation_age_seconds,
            None => now - e.0.created_at > cfg.max_operation_age_seconds,
        },
        OperationStatus::Failed { .. } => cfg.cleanup_failed_operations && now - e.0.created_at
            > cfg.max_operation_age_seconds,
        OperationStatus::Cancelled => now - e.0.created_at > cfg.max_operation_age_seconds,
        OperationStatus::TimedOut => now - e.0.created_at > cfg.max_operation_age_seconds,
        _ => false,
    }
}

/// How many completed operations are over the limit.
pub open spec fn completed_excess(vals: Seq<(Operation, OperationStatus)>, cfg: CleanupConfig) -> nat {
    let c = count_kind(vals, 2);
    if c > cfg.max_completed_operations {
        (c - cfg.max_completed_operations) as nat
    } else {
        0
    }
}

/// `chosen` marks `k` completed entries, none created later than a completed
/// entry left unmarked: the oldest completed entries, ties broken either way.
pub open spec fn oldest_completed(vals: Seq<(Operation, OperationStatus)>, chosen: Seq<bool>, k: nat) -> bool {
    &&& chosen.len() == vals.len()
    &&& forall|i: int| 0 <= i < vals.len() && #[trigger] chosen[i] ==> is_completed(vals[i])
    &&& count_where(vals.len() as int, |i: int| chosen[i]) == k
    &&& forall|i: int, j: int|
        0 <= i < vals.len() && 0 <= j < vals.len() && chosen[i] && !chosen[j] && is_completed(vals[j])
            ==> #[trigger] vals[i].0.created_at <= #[trigger] vals[j].0.created_at
}

/// The keys of `keys` at the positions that `flags` marks, in order.
pub open spec fn pick(keys: Seq<Seq<char>>, flags: Seq<bool>) -> Seq<Seq<char>>
    decreases keys.len(),
{
    if keys.len() == 0 || flags.len() != keys.len() {
        seq![]
    } else {
        let p = pick(keys.drop_last(), flags.drop_last());
        if flags.last() {
            p.push(keys.last())
        } else {
            p
        }
    }
}

/// What removing the entries under `rm` (in order) reports.
pub open spec fn tally(m: Map<Seq<char>, (Operation, OperationStatus)>, rm: Seq<Seq<char>>) -> (int, int, int, int, int, int)
    decreases rm.len(),
{
    if rm.len() == 0 {
        (0, 0, 0, 0, 0, 0)
    } else {
        let t = tally(m, rm.drop_last());
        let e = m[rm.last()];
        (
            t.0 + 1,
            t.1 + match e.0.memory_used {
                Some(b) => b as int,
                None => 0,
            },
            t.2 + if status_kind(e.1) == 2 { 1int } else { 0 },
            t.3 + if status_kind(e.1) == 3 { 1int } else { 0 },
            t.4 + if status_kind(e.1) == 4 { 1int } else { 0 },
            t.5 + if status_kind(e.1) == 5 { 1int } else { 0 },
        )
    }
}

/// The memory recorded for every operation together.
pub open spec fn memory_total(vals: Seq<(Operation, OperationStatus)>) -> int
    decreases vals.len(),
{
    if vals.len() == 0 {
        0
    } else {
        memory_total(vals.drop_last()) + match vals.last().0.memory_used {
            Some(b) => b as int,
            None => 0,
        }
    }
}

/// The running total after releasing, in order, what the monitor holds for
/// each key of `rm` (each release wraps as an atomic subtraction does).
pub open spec fn released(current: u64, mm: Map<Seq<char>, u64>, rm: Seq<Seq<char>>) -> u64
    decreases rm.len(),
{
    if rm.len() == 0 {
        current
    } else {
        let c = released(current, mm, rm.drop_last());
        if mm.contains_key(rm.last()) {
            c.wrapping_sub(mm[rm.last()])
        } else {
            c
        }
    }
}

/// The positions a clean-up pass removes: aged-out entries and the chosen
/// oldest completed ones.
pub open spec fn removal_flags(vals: Seq<(Operation, OperationStatus)>, chosen: Seq<bool>, now: u64, cfg: CleanupConfig) -> Seq<bool> {
    Seq::new(vals.len(), |i: int| aged_out(vals[i], now, cfg) || chosen[i])
}

/// The outcome of a clean-up pass over `before` at time `now`, with `chosen`
/// the oldest completed operations that exceed the limit.
pub open spec fn cleanup_outcome(before: OperationManager, after: OperationManager, stats: CleanupStats, now: u64, chosen: Seq<bool>) -> bool {
    let vals = before.operations.values();
    let keys = before.operations.keys();
    let rm = pick(keys, removal_flags(vals, chosen, now, before.cleanup_config));
    let t = tally(before.operations@, rm);
    &&& oldest_completed(vals, chosen, completed_excess(vals, before.cleanup_config))
    &&& after.operations@ == before.operations@.remove_keys(rm.to_set())
    &&& after.memory_monitor.operations_memory@ == before.memory_monitor.operations_memory@.remove_keys(rm.to_set())
    &&& after.memory_monitor.current_usage == released(before.memory_monitor.current_usage, before.memory_monitor.operations_memory@, rm)
    &&& after.memory_monitor.peak_usage == before.memory_monitor.peak_usage
    &&& stats.operations_removed == t.0
    &&& stats.memory_freed == t.1
    &&& stats.completed_removed == t.2
    &&& stats.failed_removed == t.3
    &&& stats.cancelled_removed == t.4
    &&& stats.timed_out_removed == t.5
}

proof fn lemma_count_kind_where(vals: Seq<(Operation, OperationStatus)>, kind: int)
    ensures
        count_kind(vals, kind) == count_where(vals.len() as int, |i: int| status_kind(vals[i].1) == kind),
    decreases vals.len(),
{
    if vals.len() > 0 {
        let d = vals.drop_last();
        lemma_count_kind_where(d, kind);
        lemma_count_where_ext(d.len() as int, |i: int| status_kind(d[i].1) == kind, |i: int| status_kind(vals[i].1) == kind);
    }
}

impl OperationManager {
    /// Chooses the `excess` oldest completed operations, one at a time, each
    /// time the earliest created among those not yet chosen.
    fn choose_oldest(&self, excess: usize) -> (chosen: Vec<bool>)
        requires
            self.wf(),
            excess <= count_kind(self.operations.values(), 2),
        ensures
            oldest_completed(self.operations.values(), chosen@, excess as nat),
    {
        let ghost vals = self.operations.values();
        proof { self.operations.lemma_view(); }
        let n = self.operations.len();
        let mut chosen: Vec<bool> = Vec::new();
        let mut i: usize = 0;
        while i < n
            invariant
                n == vals.len(),
                i <= n,
                chosen@.len() == i,
                forall|j: int| 0 <= j < i ==> !chosen@[j],
            decreases n - i,
        {
            chosen.push(false);
            i += 1;
        }
        proof {
            lemma_count_where_ext(n as int, |j: int| chosen@[j], |j: int| false);
            assert(count_where(n as int, |j: int| false) == 0) by {
                lemma_count_false(n as int);
            }
            lemma_count_kind_where(vals, 2);
        }
        let mut round: usize = 0;
        while round < excess
            invariant
                self.wf(),
                vals == self.operations.values(),
                n == vals.len(),
                vals.len() == self.operations.keys().len(),
                excess <= count_kind(vals, 2),
                count_kind(vals, 2) == count_where(n as int, |j: int| status_kind(vals[j].1) == 2),
                round <= excess,
                chosen@.len() == n,
                forall|j: int| 0 <= j < n && #[trigger] chosen@[j] ==> is_completed(vals[j]),
                count_where(n as int, |j: int| chosen@[j]) == round,
                forall|a: int, b: int|
                    0 <= a < n && 0 <= b < n && chosen@[a] && !chosen@[b] && is_completed(vals[b])
                        ==> #[trigger] vals[a].0.created_at <= #[trigger] vals[b].0.created_at,
            decreases excess - round,
        {
            proof {
                lemma_unchosen_exists(n as int, |j: int| status_kind(vals[j].1) == 2, |j: int| chosen@[j]);
            }
            let mut best: usize = n;
            let mut best_time: u64 = 0;
            let mut j: usize = 0;
            while j < n
                invariant
                    self.wf(),
                    vals == self.operations.values(),
                    n == vals.len(),
                    vals.len() == self.operations.keys().len(),
                    chosen@.len() == n,
                    j <= n,
                    best == n || (best < j && is_completed(vals[best as int]) && !chosen@[best as int]
                        && vals[best as int].0.created_at == best_time),
                    best == n ==> forall|k: int| 0 <= k < j ==> !(is_completed(vals[k]) && !chosen@[k]),
                    best < n ==> forall|k: int| 0 <= k < j && is_completed(vals[k]) && !chosen@[k]
                        ==> best_time <= vals[k].0.created_at,
                decreases n - j,
            {
                let (_key, e) = self.operations.entry_at(j);
                let done = match e.1 {
                    OperationStatus::Completed { .. } => true,
                    _ => false,
                };
                if done && !chosen[j] {
                    if best == n || e.0.created_at < best_time {
                        best = j;
                        best_time = e.0.created_at;
                    }
                }
                j += 1;
            }
            assert(best < n);
            let ghost before = chosen@;
            chosen.set(best, true);
            proof {
                lemma_count_where_set(n as int, |k: int| before[k], |k: int| chosen@[k], best as int);
            }
            round += 1;
        }
        proof {
            lemma_count_where_ext(n as int, |j: int| chosen@[j], |i: int| chosen@[i]);
        }
        chosen
    }
}

proof fn lemma_pick_step(keys: Seq<Seq<char>>, flags: Seq<bool>, i: int)
    requires
        keys.len() == flags.len(),
        0 <= i < keys.len(),
    ensures
        pick(keys.take(i + 1), flags.take(i + 1)) == if flags[i] {
            pick(keys.take(i), flags.take(i)).push(keys[i])
        } else {
            pick(keys.take(i), flags.take(i))
        },
{
    assert(keys.take(i + 1).drop_last() =~= keys.take(i));
    assert(flags.take(i + 1).drop_last() =~= flags.take(i));
}

proof fn lemma_pick_props(keys: Seq<Seq<char>>, flags: Seq<bool>)
    requires
        keys.len() == flags.len(),
        keys.no_duplicates(),
    ensures
        pick(keys, flags).no_duplicates(),
        pick(keys, flags).len() <= keys.len(),
        forall|x: Seq<char>| pick(keys, flags).contains(x) ==> keys.contains(x),
    decreases keys.len(),
{
    if keys.len() > 0 {
        let d = keys.drop_last();
        assert(d.no_duplicates()) by {
            assert forall|a: int, b: int| 0 <= a < d.len() && 0 <= b < d.len() && a != b implies d[a] != d[b] by {
                assert(keys[a] != keys[b]);
            }
        }
        lemma_pick_props(d, flags.drop_last());
        let p = pick(d, flags.drop_last());
        assert forall|x: Seq<char>| pick(keys, flags).contains(x) implies keys.contains(x) by {
            if p.contains(x) {
                assert(d.contains(x));
                let k = choose|k: int| 0 <= k < d.len() && d[k] == x;
                assert(keys[k] == x);
            } else {
                let q = p.push(keys.last());
                assert(flags.last() && pick(keys, flags) == q);
                let k = choose|k: int| 0 <= k < q.len() && q[k] == x;
                assert(k == p.len());
                assert(keys[keys.len() - 1] == x);
            }
        }
        if flags.last() {
            assert(!p.contains(keys.last())) by {
                if p.contains(keys.last()) {
                    assert(d.contains(keys.last()));
                    let k = choose|k: int| 0 <= k < d.len() && d[k] == keys.last();
                    assert(keys[k] == keys[keys.len() - 1]);
                }
            }
            let q = p.push(keys.last());
            assert forall|a: int, b: int| 0 <= a < q.len() && 0 <= b < q.len() && a != b implies q[a] != q[b] by {
                if a == q.len() - 1 {
                    assert(p.contains(q[b]));
                } else if b == q.len() - 1 {
                    assert(p.contains(q[a]));
                }
            }
        }
    }
}

proof fn lemma_tally_bound(m: Map<Seq<char>, (Operation, OperationStatus)>, keys: Seq<Seq<char>>, vals: Seq<(Operation, OperationStatus)>, flags: Seq<bool>)
    requires
        keys.len() == flags.len(),
        keys.len() == vals.len(),
        forall|i: int| 0 <= i < keys.len() ==> #[trigger] m[keys[i]] == vals[i],
    ensures
        0 <= tally(m, pick(keys, flags)).1 <= memory_total(vals),
        0 <= tally(m, pick(keys, flags)).0 <= keys.len(),
        0 <= tally(m, pick(keys, flags)).2 <= keys.len(),
        0 <= tally(m, pick(keys, flags)).3 <= keys.len(),
        0 <= tally(m, pick(keys, flags)).4 <= keys.len(),
        0 <= tally(m, pick(keys, flags)).5 <= keys.len(),
    decreases keys.len(),
{
    if keys.len() > 0 {
        let d = keys.drop_last();
        assert forall|i: int| 0 <= i < d.len() implies #[trigger] m[d[i]] == vals.drop_last()[i] by {
            assert(m[keys[i]] == vals[i]);
        }
        lemma_tally_bound(m, d, vals.drop_last(), flags.drop_last());
        assert(m[keys[keys.len() - 1]] == vals[vals.len() - 1]);
        let p = pick(d, flags.drop_last());
        if flags.last() {
            assert(p.push(keys.last()).drop_last() =~= p);
        }
    }
}


impl OperationManager {
    /// Whether an entry has aged out at `now`.
    fn entry_aged_out(e: &(Operation, OperationStatus), now: u64, cfg: CleanupConfig) -> (r: bool)
        requires
            age_defined(*e, now, cfg),
        ensures
            r == aged_out(*e, now, cfg),
    {
        match &e.1 {
            OperationStatus::Completed { .. } => match e.0.completed_at {
                Some(c) => now - c > cfg.max_operation_age_seconds,
                None => now - e.0.created_at > cfg.max_operation_age_seconds,
            },
            OperationStatus::Failed { .. } => cfg.cleanup_failed_operations && now - e.0.created_at
                > cfg.max_operation_age_seconds,
            OperationStatus::Cancelled => now - e.0.created_at > cfg.max_operation_age_seconds,
            OperationStatus::TimedOut => now - e.0.created_at > cfg.max_operation_age_seconds,
            _ => false,
        }
    }

    /// One clean-up pass at time `now`: finished operations older than the
    /// age limit go, and when more completed operations remain than the limit
    /// allows, the oldest of them (by creation) go too; the memory booked for
    /// what goes is released, and the pass reports what it removed.
    pub fn cleanup_operations(&mut self, now: u64) -> (stats: CleanupStats)
        requires
            old(self).wf(),
            forall|i: int| 0 <= i < old(self).operations.values().len() ==> age_defined(
                #[trigger] old(self).operations.values()[i],
                now,
                old(self).cleanup_config,
            ),
            memory_total(old(self).operations.values()) <= u64::MAX,
        ensures
            final(self).wf(),
            final(self).cleanup_config == old(self).cleanup_config,
            exists|chosen: Seq<bool>| cleanup_outcome(*old(self), *final(self), stats, now, chosen),
    {
        let ghost vals = self.operations.values();
        let ghost keys = self.operations.keys();
        let ghost m0 = self.operations@;
        let ghost mm0 = self.memory_monitor.operations_memory@;
        let ghost cur0 = self.memory_monitor.current_usage;
        let cfg = self.cleanup_config;
        proof { self.operations.lemma_view(); }
        let completed = self.count_status(2);
        let excess: usize = if completed > cfg.max_completed_operations {
            completed - cfg.max_completed_operations
        } else {
            0
        };
        let chosen = self.choose_oldest(excess);
        let ghost flags = removal_flags(vals, chosen@, now, cfg);
        let n = self.operations.len();
        let mut rm: Vec<String> = Vec::new();
        let mut i: usize = 0;
        while i < n
            invariant
                self.wf(),
                vals == self.operations.values(),
                keys == self.operations.keys(),
                n == vals.len(),
                n == keys.len(),
                chosen@.len() == n,
                flags == removal_flags(vals, chosen@, now, cfg),
                cfg == self.cleanup_config,
                forall|j: int| 0 <= j < vals.len() ==> age_defined(#[trigger] vals[j], now, cfg),
                i <= n,
                rm@.map_values(|k: String| k@) == pick(keys.take(i as int), flags.take(i as int)),
            decreases n - i,
        {
            let (k, e) = self.operations.entry_at(i);
            assert(e == vals[i as int]);
            let aged = Self::entry_aged_out(e, now, cfg);
            proof { lemma_pick_step(keys, flags, i as int); }
            if aged || chosen[i] {
                rm.push(k.clone());
                assert(rm@.map_values(|k: String| k@) =~= pick(keys.take(i as int), flags.take(i as int)).push(keys[i as int]));
            }
            i += 1;
        }
        assert(keys.take(n as int) =~= keys);
        assert(flags.take(n as int) =~= flags);
        let ghost rmv = rm@.map_values(|k: String| k@);
        proof {
            lemma_pick_props(keys, flags);
            lemma_tally_bound(m0, keys, vals, flags);
        }
        let mut stats = CleanupStats {
            operations_removed: 0,
            memory_freed: 0,
            completed_removed: 0,
            failed_removed: 0,
            cancelled_removed: 0,
            timed_out_removed: 0,
        };
        let mut j: usize = 0;
        while j < rm.len()
            invariant
                self.wf(),
                self.cleanup_config == cfg,
                rmv == rm@.map_values(|k: String| k@),
                rmv == pick(keys, flags),
                rmv.no_duplicates(),
                forall|x: Seq<char>| rmv.contains(x) ==> keys.contains(x),
                forall|x: Seq<char>| #[trigger] m0.contains_key(x) <==> keys.contains(x),
                0 <= tally(m0, rmv).1 <= u64::MAX,
                0 <= tally(m0, rmv).0 <= n,
                0 <= tally(m0, rmv).2 <= n,
                0 <= tally(m0, rmv).3 <= n,
                0 <= tally(m0, rmv).4 <= n,
                0 <= tally(m0, rmv).5 <= n,
                n <= usize::MAX,
                j <= rm@.len(),
                self.operations@ == m0.remove_keys(rmv.take(j as int).to_set()),
                self.memory_monitor.operations_memory@ == mm0.remove_keys(rmv.take(j as int).to_set()),
                self.memory_monitor.current_usage == released(cur0, mm0, rmv.take(j as int)),
                self.memory_monitor.peak_usage == old(self).memory_monitor.peak_usage,
                stats.operations_removed == tally(m0, rmv.take(j as int)).0,
                stats.memory_freed == tally(m0, rmv.take(j as int)).1,
                stats.completed_removed == tally(m0, rmv.take(j as int)).2,
                stats.failed_removed == tally(m0, rmv.take(j as int)).3,
                stats.cancelled_removed == tally(m0, rmv.take(j as int)).4,
                stats.timed_out_removed == tally(m0, rmv.take(j as int)).5,
            decreases rm@.len() - j,
        {
            let ghost kk = rmv[j as int];
            let ghost sj = rmv.take(j as int).to_set();
            proof {
                assert(rmv.contains(kk));
                assert(!sj.contains(kk)) by {
                    if sj.contains(kk) {
                        let a = choose|a: int| 0 <= a < j && rmv.take(j as int)[a] == kk;
                        assert(rmv[a] == rmv[j as int]);
                    }
                }
                assert(rmv.take(j + 1) =~= rmv.take(j as int).push(kk));
                rmv.take(j as int).lemma_push_to_set_commute(kk);
                assert(rmv.take(j + 1).to_set() =~= sj.insert(kk));
                assert(rmv.take(j + 1).drop_last() =~= rmv.take(j as int));
                lemma_tally_prefix(m0, rmv, j as int + 1);
            }
            let removed = self.operations.remove(rm[j].as_str());
            let freed = self.memory_monitor.deallocate(rm[j].as_str());
            proof {
                assert(self.operations@ =~= m0.remove_keys(sj.insert(kk)));
                assert(self.memory_monitor.operations_memory@ =~= mm0.remove_keys(sj.insert(kk)));
            }
            match removed {
                Some(e) => {
                    assert(e == m0[kk]);
                    stats.operations_removed = stats.operations_removed + 1;
                    match e.0.memory_used {
                        Some(b) => { stats.memory_freed = stats.memory_freed + b; },
                        None => {},
                    }
                    match e.1 {
                        OperationStatus::Completed { .. } => { stats.completed_removed = stats.completed_removed + 1; },
                        OperationStatus::Failed { .. } => { stats.failed_removed = stats.failed_removed + 1; },
                        OperationStatus::Cancelled => { stats.cancelled_removed = stats.cancelled_removed + 1; },
                        OperationStatus::TimedOut => { stats.timed_out_removed = stats.timed_out_removed + 1; },
                        _ => {},
                    }
                },
                None => {
                    assert(false);
                },
            }
            j += 1;
        }
        assert(rmv.take(rm@.len() as int) =~= rmv);
        assert(cleanup_outcome(*old(self), *self, stats, now, chosen@));
        stats
    }

    /// A clean-up pass at the current time.
    pub fn cleanup_now(&mut self) -> (stats: CleanupStats)
        requires
            old(self).wf(),
            memory_total(old(self).operations.values()) <= u64::MAX,
        ensures
            final(self).wf(),
            final(self).cleanup_config == old(self).cleanup_config,
            exists|now: u64| #![trigger ages_defined(*old(self), now)]
                if ages_defined(*old(self), now) {
                    exists|chosen: Seq<bool>| cleanup_outcome(*old(self), *final(self), stats, now, chosen)
                } else {
                    *final(self) == *old(self) && stats == CleanupStats {
                        operations_removed: 0,
                        memory_freed: 0,
                        completed_removed: 0,
                        failed_removed: 0,
                        cancelled_removed: 0,
                        timed_out_removed: 0,
                    }
                },
    {
        let now = unix_seconds();
        let ghost before = *self;
        if self.timestamps_before(now) {
            let stats = self.cleanup_operations(now);
            assert(ages_defined(before, now));
            stats
        } else {
            assert(!ages_defined(before, now));
            CleanupStats {
                operations_removed: 0,
                memory_freed: 0,
                completed_removed: 0,
                failed_removed: 0,
                cancelled_removed: 0,
                timed_out_removed: 0,
            }
        }
    }

    /// Whether every time a clean-up pass at `now` would age from lies at or
    /// before `now`.
    pub fn timestamps_before(&self, now: u64) -> (r: bool)
        requires
            self.wf(),
        ensures
            r == forall|i: int| 0 <= i < self.operations.values().len() ==> age_defined(
                #[trigger] self.operations.values()[i],
                now,
                self.cleanup_config,
            ),
    {
        let ghost vals = self.operations.values();
        proof { self.operations.lemma_view(); }
        let n = self.operations.len();
        let cfg = self.cleanup_config;
        let mut i: usize = 0;
        while i < n
            invariant
                self.wf(),
                vals == self.operations.values(),
                n == vals.len(),
                n == self.operations.keys().len(),
                cfg == self.cleanup_config,
                i <= n,
                forall|j: int| 0 <= j < i ==> age_defined(#[trigger] vals[j], now, cfg),
            decreases n - i,
        {
            let (_k, e) = self.operations.entry_at(i);
            let ok = match &e.1 {
                OperationStatus::Completed { .. } => match e.0.completed_at {
                    Some(c) => c <= now,
                    None => e.0.created_at <= now,
                },
                OperationStatus::Failed { .. } => !cfg.cleanup_failed_operations || e.0.created_at <= now,
                OperationStatus::Cancelled => e.0.created_at <= now,
                OperationStatus::TimedOut => e.0.created_at <= now,
                _ => true,
            };
            if !ok {
                assert(!age_defined(vals[i as int], now, cfg));
                return false;
            }
            i += 1;
        }
        true
    }
}

proof fn lemma_tally_prefix(m: Map<Seq<char>, (Operation, OperationStatus)>, rm: Seq<Seq<char>>, j: int)
    requires
        0 <= j <= rm.len(),
        tally(m, rm).0 >= 0,
    ensures
        0 <= tally(m, rm.take(j)).0 <= tally(m, rm).0,
        0 <= tally(m, rm.take(j)).1 <= tally(m, rm).1,
        0 <= tally(m, rm.take(j)).2 <= tally(m, rm).2,
        0 <= tally(m, rm.take(j)).3 <= tally(m, rm).3,
        0 <= tally(m, rm.take(j)).4 <= tally(m, rm).4,
        0 <= tally(m, rm.take(j)).5 <= tally(m, rm).5,
    decreases rm.len(),
{
    lemma_tally_nonneg(m, rm.take(j));
    if j < rm.len() {
        assert(rm.drop_last().take(j) =~= rm.take(j));
        lemma_tally_nonneg(m, rm.drop_last());
        lemma_tally_prefix(m, rm.drop_last(), j);
    } else {
        assert(rm.take(j) =~= rm);
    }
}

proof fn lemma_tally_nonneg(m: Map<Seq<char>, (Operation, OperationStatus)>, rm: Seq<Seq<char>>)
    ensures
        tally(m, rm).0 >= 0,
        tally(m, rm).1 >= 0,
        tally(m, rm).2 >= 0,
        tally(m, rm).3 >= 0,
        tally(m, rm).4 >= 0,
        tally(m, rm).5 >= 0,
    decreases rm.len(),
{
    if rm.len() > 0 {
        lemma_tally_nonneg(m, rm.drop_last());
    }
}

/// Releasing the memory of an operation undoes its allocation: the tracked
/// amounts and the current usage are what they were before.
pub proof fn law_deallocate_undoes_allocate(usage: Map<Seq<char>, u64>, current: u64, id: Seq<char>, bytes: u64)
    requires
        current + bytes <= u64::MAX,
        !usage.contains_key(id),
    ensures
        usage.insert(id, bytes).contains_key(id),
        usage.insert(id, bytes)[id] == bytes,
        usage.insert(id, bytes).remove(id) == usage,
        ((current + bytes) as u64).wrapping_sub(bytes) == current,
{
    assert(usage.insert(id, bytes).remove(id) =~= usage);
}

} // verus!
