use socrates_core::thread_pool::{
    create_task, make_task_id, pool_config_for, pool_configs, task_timeout_ms, PoolCounters, TaskPriority,
    TaskType, ThreadPoolConfig,
};

#[test]
fn default_pool_sizes() {
    let one = ThreadPoolConfig::default_for(1);
    assert_eq!(one.max_threads, 2);
    assert_eq!(one.queue_size, 100);
    assert_eq!(one.idle_timeout_seconds, 300);
    assert_eq!(one.task_timeout_seconds, 300);
    assert_eq!(ThreadPoolConfig::default_for(8).max_threads, 8);
    assert!(ThreadPoolConfig::default().max_threads >= 2);
}

#[test]
fn pools_per_task_type() {
    let base = ThreadPoolConfig::default_for(8);
    let emb = pool_config_for(TaskType::Embedding, base, 8);
    assert_eq!((emb.max_threads, emb.queue_size), (4, 50));
    let code = pool_config_for(TaskType::CodeAnalysis, base, 8);
    assert_eq!((code.max_threads, code.queue_size), (8, 100));
    let fs = pool_config_for(TaskType::FileSystemOps, base, 8);
    assert_eq!((fs.max_threads, fs.queue_size), (8, 200));
    let small_fs = pool_config_for(TaskType::FileSystemOps, base, 3);
    assert_eq!(small_fs.max_threads, 6);
    let small_emb = pool_config_for(TaskType::Embedding, ThreadPoolConfig::default_for(1), 1);
    assert_eq!(small_emb.max_threads, 1);
    assert_eq!(pool_config_for(TaskType::General, base, 8), base);
    let all = pool_configs(base, 8);
    assert_eq!(all.len(), 6);
}

#[test]
fn every_pool_has_a_thread_on_one_cpu() {
    let base = ThreadPoolConfig::default_for(1);
    for t in [
        TaskType::Embedding,
        TaskType::CodeAnalysis,
        TaskType::DocumentProcessing,
        TaskType::FileSystemOps,
        TaskType::Compression,
        TaskType::General,
    ] {
        assert!(pool_config_for(t, base, 1).max_threads >= 1);
    }
}

#[test]
fn task_ids_and_timeouts() {
    assert_eq!(make_task_id(1700000000123, 42), "task_1700000000123_42");
    let t = create_task(TaskType::General, TaskPriority::High, 7u32);
    assert!(t.id.starts_with("task_"));
    assert_eq!(t.payload, 7);
    assert!(t.timeout_ms.is_none());
    let cfg = ThreadPoolConfig::default_for(2);
    assert_eq!(task_timeout_ms(None, &cfg), 300_000);
    assert_eq!(task_timeout_ms(Some(50), &cfg), 50);
}

#[test]
fn pool_counters() {
    let mut c = PoolCounters::new();
    c.record(true);
    c.record(true);
    c.record(false);
    let cfg = ThreadPoolConfig::default_for(4);
    let stats = c.stats(&cfg, 3);
    assert_eq!(stats.completed_tasks, 2);
    assert_eq!(stats.failed_tasks, 1);
    assert_eq!(stats.active_threads, 1);
    assert_eq!(stats.idle_threads, 3);
}
