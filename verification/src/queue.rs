//! The per-priority queues that the operation processor serves, and the
//! decisions it makes for each operation it takes off a queue.

use vstd::prelude::*;
use crate::operations::{Operation, OperationManager, OperationStatus, OperationType, ResourceLimits, ResourceRequirements, level_of};
use crate::text::owned;

verus! {

/// One first-in first-out queue per priority level, `Critical` at level 0.
pub struct PriorityQueues {
    pub levels: Vec<Vec<Operation>>,
}

/// The number of priority levels.
pub const LEVELS: usize = 5;

impl PriorityQueues {
    /// There is a queue for each level.
    pub open spec fn wf(&self) -> bool {
        self.levels@.len() == LEVELS
    }

    /// The operations waiting at level `l`, front first.
    pub open spec fn at(&self, l: int) -> Seq<Operation> {
        self.levels@[l]@
    }

    /// Empty queues.
    pub fn new() -> (r: Self)
        ensures
            r.wf(),
            forall|l: int| 0 <= l < LEVELS ==> #[trigger] r.at(l) == Seq::<Operation>::empty(),
    {
        let mut levels: Vec<Vec<Operation>> = Vec::new();
        let mut i: usize = 0;
        while i < LEVELS
            invariant
                i <= LEVELS,
                levels@.len() == i,
                forall|l: int| 0 <= l < i ==> #[trigger] levels@[l]@ == Seq::<Operation>::empty(),
            decreases LEVELS - i,
        {
            levels.push(Vec::new());
            i += 1;
        }
        PriorityQueues { levels }
    }

    /// Whether nothing waits at level `l`.
    pub fn is_level_empty(&self, l: usize) -> (r: bool)
        requires
            self.wf(),
            l < LEVELS,
        ensures
            r == (self.at(l as int).len() == 0),
    {
        self.levels[l].len() == 0
    }

    /// How many operations wait at level `l`.
    pub fn level_len(&self, l: usize) -> (r: usize)
        requires
            self.wf(),
            l < LEVELS,
        ensures
            r == self.at(l as int).len(),
    {
        self.levels[l].len()
    }

    /// Appends an operation to the queue of level `l`.
    fn push_at(&mut self, l: usize, operation: Operation)
        requires
            old(self).wf(),
            l < LEVELS,
        ensures
            final(self).wf(),
            final(self).at(l as int) == old(self).at(l as int).push(operation),
            forall|m: int| 0 <= m < LEVELS && m != l ==> #[trigger] final(self).at(m) == old(self).at(m),
    {
        let mut q = self.levels.remove(l);
        q.push(operation);
        self.levels.insert(l, q);
    }

    /// Adds an operation at the back of the queue of its priority.
    pub fn push(&mut self, operation: Operation)
        requires
            old(self).wf(),
        ensures
            final(self).wf(),
            final(self).at(level_of(operation.priority) as int) == old(self).at(
                level_of(operation.priority) as int,
            ).push(operation),
            forall|m: int|
                0 <= m < LEVELS && m != level_of(operation.priority) ==> #[trigger] final(self).at(m)
                    == old(self).at(m),
    {
        let l = operation.priority.level();
        self.push_at(l, operation);
    }

    /// Takes the operation at the front of level `l`, if any.
    pub fn pop_front(&mut self, l: usize) -> (r: Option<Operation>)
        requires
            old(self).wf(),
            l < LEVELS,
        ensures
            final(self).wf(),
            forall|m: int| 0 <= m < LEVELS && m != l ==> #[trigger] final(self).at(m) == old(self).at(m),
            old(self).at(l as int).len() == 0 ==> r is None && final(self).at(l as int) == old(self).at(
                l as int,
            ),
            old(self).at(l as int).len() > 0 ==> r == Some(old(self).at(l as int)[0]) && final(self).at(
                l as int,
            ) == old(self).at(l as int).drop_first(),
    {
        let mut q = self.levels.remove(l);
        let r = if q.len() > 0 {
            Some(q.remove(0))
        } else {
            None
        };
        self.levels.insert(l, q);
        r
    }

    /// Serves level `l` once. Without a permit nothing happens: the
    /// operations stay queued. With one, the operation at the front of the
    /// level, if any, is taken off it, marked running in the registry and
    /// returned to be run.
    pub fn dispatch(&mut self, manager: &mut OperationManager, l: usize, permit_available: bool) -> (r: Option<Operation>)
        requires
            old(self).wf(),
            old(manager).wf(),
            l < LEVELS,
        ensures
            final(self).wf(),
            final(manager).wf(),
            final(manager).resource_limits == old(manager).resource_limits,
            final(manager).cleanup_config == old(manager).cleanup_config,
            final(manager).memory_monitor == old(manager).memory_monitor,
            forall|m: int| 0 <= m < LEVELS && m != l ==> #[trigger] final(self).at(m) == old(self).at(m),
            !permit_available || old(self).at(l as int).len() == 0 ==> r is None && final(self).at(l as int)
                == old(self).at(l as int) && final(manager).operations@ == old(manager).operations@,
            permit_available && old(self).at(l as int).len() > 0 ==> {
                let op = old(self).at(l as int)[0];
                &&& r == Some(op)
                &&& final(self).at(l as int) == old(self).at(l as int).drop_first()
                &&& final(manager).operations@ == old(manager).operations@.insert(op.id@, (op, OperationStatus::Running))
            },
    {
        if !permit_available {
            return None;
        }
        match self.pop_front(l) {
            None => None,
            Some(op) => {
                manager.mark_running(op.duplicate());
                Some(op)
            },
        }
    }

    /// The first level, from the most urgent, with an operation waiting
    /// among levels `from` and below.
    pub open spec fn first_waiting_from(&self, from: int) -> int
        decreases LEVELS - from,
    {
        if from >= LEVELS {
            LEVELS as int
        } else if self.at(from).len() > 0 {
            from
        } else {
            self.first_waiting_from(from + 1)
        }
    }

    /// The most urgent level with an operation waiting, or `LEVELS` when
    /// none waits.
    pub open spec fn first_waiting(&self) -> int {
        self.first_waiting_from(0)
    }

    /// Finds the most urgent level with an operation waiting.
    pub fn next_level(&self) -> (r: usize)
        requires
            self.wf(),
        ensures
            r == self.first_waiting(),
            r < LEVELS ==> self.at(r as int).len() > 0,
            forall|m: int| 0 <= m < r ==> #[trigger] self.at(m).len() == 0,
    {
        let mut l: usize = 0;
        while l < LEVELS
            invariant
                self.wf(),
                l <= LEVELS,
                self.first_waiting() == self.first_waiting_from(l as int),
                forall|m: int| 0 <= m < l ==> #[trigger] self.at(m).len() == 0,
            decreases LEVELS - l,
        {
            if self.levels[l].len() > 0 {
                return l;
            }
            l += 1;
        }
        l
    }
}

/// The operation processor's state: the queues, the operations it has
/// started and not yet seen finish, and the permits left of its limit.
pub struct OperationProcessor {
    pub queues: PriorityQueues,
    pub running: Vec<String>,
    pub available_permits: usize,
    pub max_concurrent: usize,
}

impl OperationProcessor {
    /// Every started operation holds one permit of the limit.
    pub open spec fn wf(&self) -> bool {
        &&& self.queues.wf()
        &&& self.running@.len() + self.available_permits == self.max_concurrent
    }

    /// Nothing waiting or running, every permit of the limit free.
    pub fn new(limits: &ResourceLimits) -> (r: Self)
        ensures
            r.wf(),
            forall|l: int| 0 <= l < LEVELS ==> #[trigger] r.queues.at(l) == Seq::<Operation>::empty(),
            r.running@ == Seq::<String>::empty(),
            r.available_permits == limits.max_concurrent_operations,
            r.max_concurrent == limits.max_concurrent_operations,
    {
        OperationProcessor {
            queues: PriorityQueues::new(),
            running: Vec::new(),
            available_permits: limits.max_concurrent_operations,
            max_concurrent: limits.max_concurrent_operations,
        }
    }

    /// Registers an operation as queued and puts it at the back of the
    /// queue of its priority.
    pub fn enqueue(&mut self, manager: &mut OperationManager, operation: Operation) -> (r: String)
        requires
            old(self).wf(),
            old(manager).wf(),
        ensures
            final(self).wf(),
            final(manager).wf(),
            r@ == operation.id@,
            final(manager).operations@ == old(manager).operations@.insert(operation.id@, (
                Operation { completed_at: None, memory_used: None, ..operation },
                OperationStatus::Queued,
            )),
            final(manager).resource_limits == old(manager).resource_limits,
            final(manager).cleanup_config == old(manager).cleanup_config,
            final(manager).memory_monitor == old(manager).memory_monitor,
            final(self).queues.at(level_of(operation.priority) as int) == old(self).queues.at(
                level_of(operation.priority) as int,
            ).push(Operation { completed_at: None, memory_used: None, ..operation }),
            forall|m: int|
                0 <= m < LEVELS && m != level_of(operation.priority) ==> #[trigger] final(self).queues.at(m)
                    == old(self).queues.at(m),
            final(self).running == old(self).running,
            final(self).available_permits == old(self).available_permits,
            final(self).max_concurrent == old(self).max_concurrent,
            running_covered(*old(manager), *old(self)) ==> running_covered(*final(manager), *final(self)),
    {
        let mut op = operation;
        op.completed_at = None;
        op.memory_used = None;
        let queued = op.duplicate();
        let ghost m0 = *manager;
        let ghost p0 = *self;
        let id = manager.enqueue_operation(op);
        self.queues.push(queued);
        proof {
            if running_covered(m0, p0) {
                law_covered_after_update(m0, *manager, p0, queued.id@, (queued, OperationStatus::Queued));
                assert(held_ids(*self) == held_ids(p0));
            }
        }
        id
    }

    /// Serves one operation, if a permit is free: the one at the front of
    /// the most urgent level with any waiting. It is marked running, holds a
    /// permit until it is released, and is returned to be run. Without a
    /// free permit, or with nothing waiting, nothing changes: waiting
    /// operations stay queued.
    pub fn serve_next(&mut self, manager: &mut OperationManager) -> (r: Option<Operation>)
        requires
            old(self).wf(),
            old(manager).wf(),
        ensures
            final(self).wf(),
            final(manager).wf(),
            final(manager).resource_limits == old(manager).resource_limits,
            final(manager).cleanup_config == old(manager).cleanup_config,
            final(manager).memory_monitor == old(manager).memory_monitor,
            final(self).max_concurrent == old(self).max_concurrent,
            old(self).available_permits == 0 || old(self).queues.first_waiting() == LEVELS ==> r is None
                && *final(self) == *old(self) && final(manager).operations@ == old(manager).operations@,
            old(self).available_permits > 0 && old(self).queues.first_waiting() < LEVELS ==> {
                let l = old(self).queues.first_waiting();
                let op = old(self).queues.at(l)[0];
                &&& r == Some(op)
                &&& final(self).queues.at(l) == old(self).queues.at(l).drop_first()
                &&& forall|m: int| 0 <= m < LEVELS && m != l ==> #[trigger] final(self).queues.at(m) == old(
                    self,
                ).queues.at(m)
                &&& final(self).running@.len() == old(self).running@.len() + 1
                &&& final(self).running@.last()@ == op.id@
                &&& final(self).running@.drop_last() == old(self).running@
                &&& final(self).available_permits == old(self).available_permits - 1
                &&& final(manager).operations@ == old(manager).operations@.insert(op.id@, (op, OperationStatus::Running))
            },
            running_covered(*old(manager), *old(self)) ==> running_covered(*final(manager), *final(self)),
    {
        if self.available_permits == 0 {
            return None;
        }
        let l = self.queues.next_level();
        if l >= LEVELS {
            return None;
        }
        let ghost m0 = *manager;
        let ghost p0 = *self;
        let r = self.queues.dispatch(manager, l, true);
        match r {
            Some(op) => {
                self.running.push(op.id.clone());
                self.available_permits = self.available_permits - 1;
                proof {
                    let s0 = p0.running@.map_values(|s: String| s@);
                    let s1 = self.running@.map_values(|s: String| s@);
                    assert(s1 =~= s0.push(op.id@));
                    assert forall|x: Seq<char>| running_covered(m0, p0) && running_ids(*manager).contains(x) implies held_ids(
                        *self,
                    ).contains(x) by {
                        if x == op.id@ {
                            assert(s1[s1.len() - 1] == x);
                        } else {
                            assert(running_ids(m0).contains(x));
                            assert(held_ids(p0).contains(x));
                            let j = choose|j: int| 0 <= j < s0.len() && s0[j] == x;
                            assert(s1[j] == x);
                        }
                    }
                }
                Some(op)
            },
            None => None,
        }
    }

    /// Releases the permit of a started operation that has finished; an id
    /// that holds no permit changes nothing.
    pub fn release(&mut self, id: &str) -> (released: bool)
        requires
            old(self).wf(),
        ensures
            final(self).wf(),
            final(self).queues == old(self).queues,
            final(self).max_concurrent == old(self).max_concurrent,
            released == exists|i: int| 0 <= i < old(self).running@.len() && #[trigger] old(self).running@[i]@ == id@,
            released ==> exists|i: int|
                0 <= i < old(self).running@.len() && old(self).running@[i]@ == id@ && (forall|j: int|
                    0 <= j < i ==> #[trigger] old(self).running@[j]@ != id@) && final(self).running@ == old(
                    self,
                ).running@.remove(i) && final(self).available_permits == old(self).available_permits + 1,
            !released ==> final(self).running == old(self).running && final(self).available_permits == old(
                self,
            ).available_permits,
            forall|m: OperationManager|
                running_covered(m, *old(self)) && !#[trigger] running_ids(m).contains(id@) ==> running_covered(m, *final(self)),
    {
        let mut i: usize = 0;
        while i < self.running.len()
            invariant
                *self == *old(self),
                self.wf(),
                i <= self.running@.len(),
                forall|j: int| 0 <= j < i ==> #[trigger] self.running@[j]@ != id@,
            decreases self.running@.len() - i,
        {
            if crate::text::str_equals(self.running[i].as_str(), id) {
                let ghost before = self.running@;
                let ghost p0 = *self;
                let _ = self.running.remove(i);
                self.available_permits = self.available_permits + 1;
                assert(before[i as int]@ == id@);
                proof {
                    let s0 = before.map_values(|s: String| s@);
                    let s1 = self.running@.map_values(|s: String| s@);
                    assert forall|m: OperationManager| running_covered(m, p0) && !#[trigger] running_ids(m).contains(id@)
                        implies running_covered(m, *self) by {
                        assert forall|x: Seq<char>| running_ids(m).contains(x) implies held_ids(*self).contains(x) by {
                            assert(held_ids(p0).contains(x));
                            let j = choose|j: int| 0 <= j < s0.len() && s0[j] == x;
                            assert(x != id@);
                            if j < i {
                                assert(s1[j] == x);
                            } else {
                                assert(j != i);
                                assert(s1[j - 1] == x);
                            }
                        }
                    }
                }
                return true;
            }
            i += 1;
        }
        false
    }
}

/// The ids the registry has marked running.
pub open spec fn running_ids(m: OperationManager) -> Set<Seq<char>> {
    Set::new(|k: Seq<char>| m.operations@.contains_key(k) && m.operations@[k].1 == OperationStatus::Running)
}

/// The ids of the operations that hold a permit of the processor.
pub open spec fn held_ids(p: OperationProcessor) -> Set<Seq<char>> {
    p.running@.map_values(|s: String| s@).to_set()
}

/// Every operation the registry has marked running holds a permit.
pub open spec fn running_covered(m: OperationManager, p: OperationProcessor) -> bool {
    running_ids(m).subset_of(held_ids(p))
}

/// While every running operation holds a permit, the registry never has
/// more operations running than the limit.
pub proof fn law_registry_running_within_limit(m: OperationManager, p: OperationProcessor)
    requires
        p.wf(),
        running_covered(m, p),
    ensures
        running_ids(m).finite(),
        running_ids(m).len() <= p.max_concurrent,
{
    let sq = p.running@.map_values(|s: String| s@);
    vstd::seq_lib::seq_to_set_is_finite(sq);
    vstd::set_lib::lemma_len_subset(running_ids(m), held_ids(p));
    sq.lemma_cardinality_of_set();
}

/// Recording an operation as anything but running (queued again, finished,
/// failed, cancelled) keeps every running operation covered by a permit.
pub proof fn law_covered_after_update(
    before: OperationManager,
    after: OperationManager,
    p: OperationProcessor,
    k: Seq<char>,
    entry: (Operation, OperationStatus),
)
    requires
        running_covered(before, p),
        after.operations@ == before.operations@.insert(k, entry),
        entry.1 != OperationStatus::Running,
    ensures
        running_covered(after, p),
{
    assert forall|x: Seq<char>| running_ids(after).contains(x) implies held_ids(p).contains(x) by {
        assert(running_ids(before).contains(x));
    }
}

/// However the processor is driven, no more operations run at once than its
/// limit allows.
pub proof fn law_running_within_limit(p: OperationProcessor)
    requires
        p.wf(),
    ensures
        p.running@.len() <= p.max_concurrent,
{
}

/// The served operation comes from the most urgent level with any waiting:
/// every more urgent level is empty.
pub proof fn law_most_urgent_served_first(q: PriorityQueues, l: int)
    requires
        q.wf(),
        l == q.first_waiting(),
    ensures
        forall|m: int| 0 <= m < l && m < LEVELS ==> #[trigger] q.at(m).len() == 0,
        l < LEVELS ==> q.at(l).len() > 0,
{
    lemma_first_waiting_from(q, 0);
}

proof fn lemma_first_waiting_from(q: PriorityQueues, from: int)
    requires
        0 <= from,
    ensures
        from <= q.first_waiting_from(from) <= LEVELS || (from > LEVELS && q.first_waiting_from(from) == LEVELS),
        forall|m: int| from <= m < q.first_waiting_from(from) && m < LEVELS ==> #[trigger] q.at(m).len() == 0,
        q.first_waiting_from(from) < LEVELS ==> q.at(q.first_waiting_from(from)).len() > 0,
    decreases LEVELS - from,
{
    if from < LEVELS && q.at(from).len() == 0 {
        lemma_first_waiting_from(q, from + 1);
    }
}

/// The result an operation of each type completes with, as JSON text.
pub open spec fn result_text(op_type: OperationType) -> Seq<char> {
    match op_type {
        OperationType::AICompletion => "{\"result\":\"AI completion done\"}"@,
        OperationType::FileAnalysis => "{\"result\":\"File analysis complete\"}"@,
        OperationType::DocumentIndexing => "{\"result\":\"Document indexed\"}"@,
        OperationType::CodeGeneration => "{\"result\":\"Code generated\"}"@,
        OperationType::RagQuery => "{\"result\":\"RAG query complete\"}"@,
        OperationType::ModelLoading => "{\"result\":\"Model loaded\"}"@,
    }
}

/// The result an executed operation of a type completes with.
pub fn operation_result(op_type: OperationType) -> (r: String)
    ensures
        r@ == result_text(op_type),
{
    match op_type {
        OperationType::AICompletion => owned("{\"result\":\"AI completion done\"}"),
        OperationType::FileAnalysis => owned("{\"result\":\"File analysis complete\"}"),
        OperationType::DocumentIndexing => owned("{\"result\":\"Document indexed\"}"),
        OperationType::CodeGeneration => owned("{\"result\":\"Code generated\"}"),
        OperationType::RagQuery => owned("{\"result\":\"RAG query complete\"}"),
        OperationType::ModelLoading => owned("{\"result\":\"Model loaded\"}"),
    }
}

/// How long the execution of an operation of each type takes, in
/// milliseconds.
pub fn operation_duration_ms(op_type: OperationType) -> (r: u64)
    ensures
        r == match op_type {
            OperationType::AICompletion => 300u64,
            OperationType::FileAnalysis => 200u64,
            OperationType::DocumentIndexing => 250u64,
            OperationType::CodeGeneration => 350u64,
            OperationType::RagQuery => 400u64,
            OperationType::ModelLoading => 150u64,
        },
{
    match op_type {
        OperationType::AICompletion => 300,
        OperationType::FileAnalysis => 200,
        OperationType::DocumentIndexing => 250,
        OperationType::CodeGeneration => 350,
        OperationType::RagQuery => 400,
        OperationType::ModelLoading => 150,
    }
}

/// The memory booked for an operation while it runs: its estimate in
/// megabytes, in bytes.
pub open spec fn estimated_bytes(req: ResourceRequirements) -> int {
    req.memory_mb as int * 1024 * 1024
}

/// The bytes an operation is estimated to need.
pub fn estimated_memory(req: &ResourceRequirements) -> (r: u64)
    ensures
        r == estimated_bytes(*req),
{
    let mb: u64 = req.memory_mb as u64;
    assert(mb * 1024 * 1024 <= u64::MAX) by (nonlinear_arith)
        requires
            mb <= u32::MAX,
    ;
    mb * 1024 * 1024
}

impl OperationManager {
    /// Books the estimated memory of an operation that starts to run, and
    /// returns the amount booked.
    pub fn start_execution(&mut self, operation: &Operation) -> (r: u64)
        requires
            old(self).wf(),
            old(self).memory_monitor.current_usage + estimated_bytes(operation.estimated_resources) <= u64::MAX,
        ensures
            final(self).wf(),
            r == estimated_bytes(operation.estimated_resources),
            final(self).operations@ == old(self).operations@,
            final(self).cleanup_config == old(self).cleanup_config,
            final(self).memory_monitor.operations_memory@ == old(self).memory_monitor.operations_memory@.insert(
                operation.id@,
                r,
            ),
            final(self).memory_monitor.current_usage == old(self).memory_monitor.current_usage + r,
            final(self).memory_monitor.peak_usage == if old(self).memory_monitor.current_usage + r
                > old(self).memory_monitor.peak_usage {
                (old(self).memory_monitor.current_usage + r) as u64
            } else {
                old(self).memory_monitor.peak_usage
            },
    {
        let bytes = estimated_memory(&operation.estimated_resources);
        self.memory_monitor.allocate(operation.id.as_str(), bytes);
        bytes
    }

    /// Records how a running operation ended, stamped with `completed_at` and
    /// the memory it was estimated to use, and releases what it had booked.
    pub fn finish_execution(&mut self, operation: Operation, completed_at: u64, outcome: Result<String, String>)
        requires
            old(self).wf(),
        ensures
            final(self).wf(),
            final(self).cleanup_config == old(self).cleanup_config,
            final(self).operations@ == old(self).operations@.insert(
                operation.id@,
                (
                    Operation {
                        completed_at: Some(completed_at),
                        memory_used: Some(estimated_bytes(operation.estimated_resources) as u64),
                        ..operation
                    },
                    match outcome {
                        Ok(v) => OperationStatus::Completed { result: Some(v) },
                        Err(e) => OperationStatus::Failed { error: e },
                    },
                ),
            ),
            final(self).memory_monitor.operations_memory@ == old(self).memory_monitor.operations_memory@.remove(
                operation.id@,
            ),
            final(self).memory_monitor.peak_usage == old(self).memory_monitor.peak_usage,
            final(self).memory_monitor.current_usage == if old(self).memory_monitor.operations_memory@.contains_key(
                operation.id@,
            ) {
                old(self).memory_monitor.current_usage.wrapping_sub(
                    old(self).memory_monitor.operations_memory@[operation.id@],
                )
            } else {
                old(self).memory_monitor.current_usage
            },
    {
        let bytes = estimated_memory(&operation.estimated_resources);
        let id = operation.id.clone();
        self.record_outcome(operation, completed_at, bytes, outcome);
        let _ = self.memory_monitor.deallocate(id.as_str());
    }
}

/// Each level is served first in, first out: an operation pushed onto a
/// level that has others waiting does not change which is served next, and
/// it is served after all of them.
pub proof fn law_levels_are_first_in_first_out(waiting: Seq<Operation>, op: Operation)
    requires
        waiting.len() > 0,
    ensures
        waiting.push(op)[0] == waiting[0],
        waiting.push(op).drop_first() == waiting.drop_first().push(op),
{
    assert(waiting.push(op).drop_first() =~= waiting.drop_first().push(op));
}

} // verus!
