//! Sizing of the worker pools for CPU-heavy tasks, task requests and their
//! results, and the per-pool counters.

use vstd::prelude::*;
use crate::text::{owned, append_str, push_decimal, decimal_digits};
use crate::clock::unix_millis;
use crate::random::random_u32;

verus! {

/// The number of logical CPUs available to the process (`num_cpus::get`),
/// which its documentation promises is at least 1.
#[verifier::external_body]
pub(crate) fn cpu_count() -> (r: usize)
    ensures
        r >= 1,
{
    num_cpus::get()
}

/// The kinds of CPU-heavy work, each served by a pool of its own.
#[derive(Clone, Copy, Debug, PartialEq, Eq, Hash, Structural)]
pub enum TaskType {
    Embedding,
    CodeAnalysis,
    DocumentProcessing,
    FileSystemOps,
    Compression,
    General,
}

/// How urgent a task is; `Critical` first.
#[derive(Clone, Copy, Debug, PartialEq, Eq, PartialOrd, Ord, Hash, Structural)]
pub enum TaskPriority {
    Critical,
    High,
    Normal,
    Low,
}

/// The size and timing of one pool.
#[derive(Clone, Copy, Debug, PartialEq, Eq, Structural)]
pub struct ThreadPoolConfig {
    pub max_threads: usize,
    pub queue_size: usize,
    pub idle_timeout_seconds: u64,
    pub task_timeout_seconds: u64,
}

/// The default pool on a machine with `cpus` CPUs: at least two threads,
/// one per CPU; 100 queued tasks; five minutes idle and per task.
pub open spec fn default_pool(cpus: usize) -> ThreadPoolConfig {
    ThreadPoolConfig {
        max_threads: if cpus > 2 { cpus } else { 2 },
        queue_size: 100,
        idle_timeout_seconds: 300,
        task_timeout_seconds: 300,
    }
}

impl ThreadPoolConfig {
    /// The default pool for a machine with `cpus` CPUs.
    pub fn default_for(cpus: usize) -> (r: Self)
        ensures
            r == default_pool(cpus),
    {
        ThreadPoolConfig {
            max_threads: if cpus > 2 { cpus } else { 2 },
            queue_size: 100,
            idle_timeout_seconds: 300,
            task_timeout_seconds: 300,
        }
    }
}

impl Default for ThreadPoolConfig {
    /// The default pool for this machine.
    fn default() -> (r: Self)
        ensures
            r.max_threads >= 2,
            r.queue_size == 100,
            r.idle_timeout_seconds == 300,
            r.task_timeout_seconds == 300,
    {
        ThreadPoolConfig::default_for(cpu_count())
    }
}

/// The pool for a kind of task on a machine with `cpus` CPUs, from the
/// default pool: embeddings get half the CPUs (at least one) and 50 queued
/// tasks; code analysis one thread per CPU (at least two) and 100; file
/// system work twice the CPUs, at most eight, and 200; the rest the default.
pub open spec fn pool_for(task_type: TaskType, default_config: ThreadPoolConfig, cpus: usize) -> ThreadPoolConfig {
    match task_type {
        TaskType::Embedding => ThreadPoolConfig {
            max_threads: if cpus / 2 > 1 { (cpus / 2) as usize } else { 1 },
            queue_size: 50,
            ..default_config
        },
        TaskType::CodeAnalysis => ThreadPoolConfig {
            max_threads: if cpus > 2 { cpus } else { 2 },
            queue_size: 100,
            ..default_config
        },
        TaskType::FileSystemOps => ThreadPoolConfig {
            max_threads: if cpus * 2 < 8 { (cpus * 2) as usize } else { 8 },
            queue_size: 200,
            ..default_config
        },
        _ => default_config,
    }
}

/// The pool configuration for a kind of task.
pub fn pool_config_for(task_type: TaskType, default_config: ThreadPoolConfig, cpus: usize) -> (r: ThreadPoolConfig)
    ensures
        r == pool_for(task_type, default_config, cpus),
{
    match task_type {
        TaskType::Embedding => ThreadPoolConfig {
            max_threads: if cpus / 2 > 1 { cpus / 2 } else { 1 },
            queue_size: 50,
            ..default_config
        },
        TaskType::CodeAnalysis => ThreadPoolConfig {
            max_threads: if cpus > 2 { cpus } else { 2 },
            queue_size: 100,
            ..default_config
        },
        TaskType::FileSystemOps => ThreadPoolConfig {
            max_threads: if cpus < 4 { cpus * 2 } else { 8 },
            queue_size: 200,
            ..default_config
        },
        _ => default_config,
    }
}

/// Every kind of task, in the order the pools are made.
pub open spec fn all_task_types() -> Seq<TaskType> {
    seq![
        TaskType::Embedding,
        TaskType::CodeAnalysis,
        TaskType::DocumentProcessing,
        TaskType::FileSystemOps,
        TaskType::Compression,
        TaskType::General,
    ]
}

/// The pools for every kind of task on a machine with `cpus` CPUs.
pub fn pool_configs(default_config: ThreadPoolConfig, cpus: usize) -> (r: Vec<(TaskType, ThreadPoolConfig)>)
    ensures
        r@.len() == 6,
        forall|i: int| 0 <= i < 6 ==> (#[trigger] r@[i]).0 == all_task_types()[i] && r@[i].1 == pool_for(
            all_task_types()[i],
            default_config,
            cpus,
        ),
{
    let kinds = [
        TaskType::Embedding,
        TaskType::CodeAnalysis,
        TaskType::DocumentProcessing,
        TaskType::FileSystemOps,
        TaskType::Compression,
        TaskType::General,
    ];
    let mut r: Vec<(TaskType, ThreadPoolConfig)> = Vec::new();
    let mut i: usize = 0;
    while i < 6
        invariant
            i <= 6,
            kinds@ == all_task_types(),
            r@.len() == i,
            forall|j: int| 0 <= j < i ==> (#[trigger] r@[j]).0 == all_task_types()[j] && r@[j].1 == pool_for(
                all_task_types()[j],
                default_config,
                cpus,
            ),
        decreases 6 - i,
    {
        let t = kinds[i];
        r.push((t, pool_config_for(t, default_config, cpus)));
        i += 1;
    }
    r
}

/// A request to run `payload` on the pool for `task_type`, with an optional
/// time limit in milliseconds.
#[derive(Debug)]
pub struct TaskRequest<T> {
    pub id: String,
    pub task_type: TaskType,
    pub priority: TaskPriority,
    pub payload: T,
    pub timeout_ms: Option<u64>,
}

/// What running a task gave, and how long it took in milliseconds.
#[derive(Debug)]
pub struct TaskResult<R> {
    pub task_id: String,
    pub result: Result<R, String>,
    pub execution_time_ms: u64,
    pub memory_used: Option<usize>,
}

/// The id of a task created at `millis` with random suffix `salt`.
pub open spec fn task_id(millis: u64, salt: u32) -> Seq<char> {
    "task_"@ + decimal_digits(millis as nat) + "_"@ + decimal_digits(salt as nat)
}

/// Makes a task id from the creation time and a random number.
pub fn make_task_id(millis: u64, salt: u32) -> (r: String)
    ensures
        r@ == task_id(millis, salt),
{
    let mut s = owned("task_");
    push_decimal(&mut s, millis);
    append_str(&mut s, "_");
    push_decimal(&mut s, salt as u64);
    s
}

/// A task request with a fresh id (the time in milliseconds and a random
/// number) and no time limit of its own.
pub fn create_task<T>(task_type: TaskType, priority: TaskPriority, payload: T) -> (r: TaskRequest<T>)
    ensures
        r.task_type == task_type,
        r.priority == priority,
        r.payload == payload,
        r.timeout_ms is None,
        exists|millis: u64, salt: u32| r.id@ == task_id(millis, salt),
{
    let millis = unix_millis();
    let salt = random_u32();
    let id = make_task_id(millis, salt);
    TaskRequest { id, task_type, priority, payload, timeout_ms: None }
}

/// The time limit of a task: its own, or the pool's.
pub fn task_timeout_ms(timeout_ms: Option<u64>, config: &ThreadPoolConfig) -> (r: u64)
    ensures
        r == match timeout_ms {
            Some(t) => t,
            None => if config.task_timeout_seconds * 1000 > u64::MAX {
                u64::MAX
            } else {
                (config.task_timeout_seconds * 1000) as u64
            },
        },
{
    match timeout_ms {
        Some(t) => t,
        None => crate::query_cache::ttl_ms_of(config.task_timeout_seconds),
    }
}

/// The counts a pool keeps of finished tasks.
#[derive(Clone, Copy, Debug, PartialEq, Eq, Structural)]
pub struct PoolCounters {
    pub completed_tasks: u64,
    pub failed_tasks: u64,
}

/// Counts and sizes of a pool. The average execution time is the total over
/// the number of finished tasks.
#[derive(Clone, Copy, Debug, PartialEq, Eq, Structural)]
pub struct ThreadPoolStats {
    pub active_threads: usize,
    pub idle_threads: usize,
    pub queued_tasks: usize,
    pub completed_tasks: u64,
    pub failed_tasks: u64,
    pub total_memory_used: usize,
}

impl PoolCounters {
    /// Nothing counted.
    pub fn new() -> (r: Self)
        ensures
            r.completed_tasks == 0,
            r.failed_tasks == 0,
    {
        PoolCounters { completed_tasks: 0, failed_tasks: 0 }
    }

    /// Counts a finished task: a success as completed, a failure (an error or
    /// a timeout) as failed. The counters wrap as atomic counters do.
    pub fn record(&mut self, succeeded: bool)
        ensures
            succeeded ==> final(self).completed_tasks == old(self).completed_tasks.wrapping_add(1)
                && final(self).failed_tasks == old(self).failed_tasks,
            !succeeded ==> final(self).failed_tasks == old(self).failed_tasks.wrapping_add(1)
                && final(self).completed_tasks == old(self).completed_tasks,
    {
        if succeeded {
            self.completed_tasks = self.completed_tasks.wrapping_add(1);
        } else {
            self.failed_tasks = self.failed_tasks.wrapping_add(1);
        }
    }

    /// The pool's statistics when `available_permits` of its threads are
    /// free.
    pub fn stats(&self, config: &ThreadPoolConfig, available_permits: usize) -> (r: ThreadPoolStats)
        requires
            available_permits <= config.max_threads,
        ensures
            r == (ThreadPoolStats {
                active_threads: (config.max_threads - available_permits) as usize,
                idle_threads: available_permits,
                queued_tasks: 0,
                completed_tasks: self.completed_tasks,
                failed_tasks: self.failed_tasks,
                total_memory_used: 0,
            }),
    {
        ThreadPoolStats {
            active_threads: config.max_threads - available_permits,
            idle_threads: available_permits,
            queued_tasks: 0,
            completed_tasks: self.completed_tasks,
            failed_tasks: self.failed_tasks,
            total_memory_used: 0,
        }
    }
}

/// A pool keeps at least one thread for every kind of task, whatever the
/// machine (given a default of at least one thread).
pub proof fn law_every_pool_has_a_thread(task_type: TaskType, default_config: ThreadPoolConfig, cpus: usize)
    requires
        cpus >= 1,
        default_config.max_threads >= 1,
    ensures
        pool_for(task_type, default_config, cpus).max_threads >= 1,
        task_type == TaskType::FileSystemOps ==> pool_for(task_type, default_config, cpus).max_threads <= 8,
{
}

} // verus!
