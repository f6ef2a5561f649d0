use socrates_core::operations::{
    CleanupConfig, MemoryMonitor, Operation, OperationManager, OperationPriority, OperationStatus, OperationType,
    ResourceLimits, ResourceRequirements,
};
use socrates_core::queue::{estimated_memory, operation_duration_ms, operation_result, OperationProcessor, PriorityQueues};

fn limits(max_concurrent_operations: usize) -> ResourceLimits {
    ResourceLimits { max_concurrent_operations, max_memory_usage: 1024, max_cpu_usage: 80, io_throttling: false }
}

fn typed_op(id: &str, op_type: OperationType, priority: OperationPriority) -> Operation {
    OperationManager::create_operation_at(id.to_string(), op_type, priority, resources(100), "{}".to_string(), 1)
}

fn resources(memory_mb: u32) -> ResourceRequirements {
    ResourceRequirements { cpu_units: 1, memory_mb, io_intensity: 1, network_kb: 0 }
}

fn op(id: &str, priority: OperationPriority, created_at: u64) -> Operation {
    OperationManager::create_operation_at(
        id.to_string(),
        OperationType::AICompletion,
        priority,
        resources(10),
        "{}".to_string(),
        created_at,
    )
}

#[test]
fn operation_manager_creation() {
    let manager = OperationManager::new(limits(3));
    let stats = manager.get_memory_stats();
    assert_eq!(stats.current_usage, 0);
    assert_eq!(stats.peak_usage, 0);
    assert_eq!(stats.operation_count, 0);
    assert_eq!(stats.active_operations, 0);
    let cfg = CleanupConfig::default();
    assert_eq!(cfg.cleanup_interval_seconds, 300);
    assert_eq!(cfg.max_completed_operations, 1000);
    assert_eq!(cfg.max_operation_age_seconds, 3600);
    assert!(cfg.cleanup_failed_operations);
}

#[test]
fn created_operations() {
    let o = OperationManager::create_operation(
        "op1".to_string(),
        OperationType::FileAnalysis,
        OperationPriority::High,
        resources(64),
        "{\"file\":\"a.rs\"}".to_string(),
    );
    assert_eq!(o.id, "op1");
    assert_eq!(o.op_type, OperationType::FileAnalysis);
    assert_eq!(o.priority, OperationPriority::High);
    assert!(o.cancellable);
    assert!(o.timeout_ms.is_none());
    assert!(o.completed_at.is_none());
    assert!(o.created_at > 0);
}

#[test]
fn enqueue_then_status() {
    let mut manager = OperationManager::new(limits(3));
    let id = manager.enqueue_operation(op("op1", OperationPriority::Normal, 10));
    assert_eq!(id, "op1");
    assert_eq!(manager.get_operation_status("op1"), Some(OperationStatus::Queued));
    assert_eq!(manager.get_operation_status("nope"), None);
}

#[test]
fn cancellation_rules() {
    let mut manager = OperationManager::new(limits(3));
    manager.enqueue_operation(op("queued", OperationPriority::Normal, 10));
    assert!(manager.cancel_operation("queued").is_ok());
    assert_eq!(manager.get_operation_status("queued"), Some(OperationStatus::Cancelled));

    let mut fixed = op("fixed", OperationPriority::Normal, 10);
    fixed.cancellable = false;
    manager.mark_running(fixed);
    assert_eq!(
        manager.cancel_operation("fixed").unwrap_err(),
        "Operation cannot be cancelled in its current state"
    );
    assert_eq!(manager.get_operation_status("fixed"), Some(OperationStatus::Running));
    manager.mark_running(op("running", OperationPriority::Normal, 10));
    assert!(manager.cancel_operation("running").is_ok());
    assert_eq!(manager.cancel_operation("missing").unwrap_err(), "Operation not found");
    assert_eq!(
        manager.cancel_operation("queued").unwrap_err(),
        "Operation cannot be cancelled in its current state"
    );
}

#[test]
fn outcomes_and_counts() {
    let mut manager = OperationManager::new(limits(3));
    manager.enqueue_operation(op("a", OperationPriority::Normal, 1));
    manager.mark_running(op("b", OperationPriority::Normal, 1));
    manager.record_outcome(op("c", OperationPriority::Normal, 1), 5, 100, Ok("done".to_string()));
    manager.record_outcome(op("d", OperationPriority::Normal, 1), 5, 100, Err("boom".to_string()));
    assert_eq!(
        manager.get_operation_status("c"),
        Some(OperationStatus::Completed { result: Some("done".to_string()) })
    );
    assert_eq!(manager.get_operation_status("d"), Some(OperationStatus::Failed { error: "boom".to_string() }));
    let counts = manager.get_operations_by_status();
    assert_eq!(counts.queued, 1);
    assert_eq!(counts.running, 1);
    assert_eq!(counts.completed, 1);
    assert_eq!(counts.failed, 1);
    assert_eq!(counts.cancelled, 0);
    assert_eq!(manager.get_memory_stats().active_operations, 1);
}

#[test]
fn cleanup_removes_old_and_excess() {
    let cfg = CleanupConfig {
        cleanup_interval_seconds: 60,
        max_completed_operations: 1,
        max_operation_age_seconds: 100,
        cleanup_failed_operations: false,
    };
    let mut manager = OperationManager::new_with_cleanup(limits(3), cfg);
    manager.record_outcome(op("old", OperationPriority::Normal, 10), 20, 0, Ok("x".to_string()));
    manager.record_outcome(op("first", OperationPriority::Normal, 500), 650, 0, Ok("x".to_string()));
    manager.record_outcome(op("second", OperationPriority::Normal, 600), 680, 0, Ok("x".to_string()));
    manager.record_outcome(op("failed", OperationPriority::Normal, 10), 20, 0, Err("e".to_string()));
    manager.enqueue_operation(op("waiting", OperationPriority::Normal, 10));
    let stats = manager.cleanup_operations(700);
    assert_eq!(stats.operations_removed, 2);
    assert_eq!(stats.completed_removed, 2);
    assert_eq!(stats.failed_removed, 0);
    assert!(manager.get_operation_status("old").is_none());
    assert!(manager.get_operation_status("first").is_none());
    assert!(manager.get_operation_status("second").is_some());
    assert!(manager.get_operation_status("failed").is_some());
    assert!(manager.get_operation_status("waiting").is_some());
}

#[test]
fn memory_monitor_books_and_releases() {
    let mut m = MemoryMonitor::new();
    m.allocate("a", 100);
    m.allocate("b", 50);
    assert_eq!(m.current_usage(), 150);
    assert_eq!(m.peak_usage(), 150);
    assert_eq!(m.deallocate("a"), Some(100));
    assert_eq!(m.current_usage(), 50);
    assert_eq!(m.peak_usage(), 150);
    assert_eq!(m.deallocate("a"), None);
}

#[test]
fn priority_levels_and_dispatch() {
    assert_eq!(OperationPriority::Critical.level(), 0);
    assert_eq!(OperationPriority::Maintenance.level(), 4);
    let mut queues = PriorityQueues::new();
    let mut manager = OperationManager::new(limits(3));
    queues.push(op("bg", OperationPriority::Background, 1));
    queues.push(op("crit1", OperationPriority::Critical, 1));
    queues.push(op("crit2", OperationPriority::Critical, 2));
    assert_eq!(queues.level_len(0), 2);
    assert!(queues.is_level_empty(1));
    let first = queues.dispatch(&mut manager, 0, true).unwrap();
    assert_eq!(first.id, "crit1");
    assert_eq!(manager.get_operation_status("crit1"), Some(OperationStatus::Running));
    assert!(queues.dispatch(&mut manager, 0, false).is_none());
    assert_eq!(manager.get_operation_status("crit2"), None);
    assert_eq!(queues.level_len(0), 1);
    assert_eq!(queues.pop_front(0).unwrap().id, "crit2");
    assert!(queues.dispatch(&mut manager, 1, true).is_none());
}

#[test]
fn execution_books_estimated_memory() {
    assert_eq!(estimated_memory(&resources(2)), 2 * 1024 * 1024);
    let mut manager = OperationManager::new(limits(3));
    let o = op("run", OperationPriority::Normal, 1);
    let booked = manager.start_execution(&o);
    assert_eq!(booked, 10 * 1024 * 1024);
    assert_eq!(manager.get_memory_stats().current_usage, booked);
    manager.finish_execution(o, 9, Ok("ok".to_string()));
    assert_eq!(manager.get_memory_stats().current_usage, 0);
    assert_eq!(manager.get_memory_stats().peak_usage, booked);
    assert_eq!(
        manager.get_operation_status("run"),
        Some(OperationStatus::Completed { result: Some("ok".to_string()) })
    );
}

#[test]
fn releasing_memory_undoes_the_allocation() {
    let mut m = MemoryMonitor::new();
    m.allocate("base", 70);
    let before = m.current_usage();
    m.allocate("op", 30);
    assert_eq!(m.current_usage(), before + 30);
    assert_eq!(m.deallocate("op"), Some(30));
    assert_eq!(m.current_usage(), before);
    assert_eq!(m.peak_usage(), 100);
}

#[test]
fn each_level_is_first_in_first_out() {
    let mut queues = PriorityQueues::new();
    queues.push(op("a", OperationPriority::Normal, 1));
    queues.push(op("b", OperationPriority::Normal, 2));
    queues.push(op("c", OperationPriority::Normal, 3));
    let order: Vec<String> = (0..3).map(|_| queues.pop_front(2).unwrap().id).collect();
    assert_eq!(order, vec!["a", "b", "c"]);
    assert!(queues.pop_front(2).is_none());
}

#[test]
fn test_operation_manager_creation() {
    let manager = OperationManager::new(limits(3));
    assert_eq!(manager.resource_limits.max_concurrent_operations, 3);
    assert_eq!(manager.resource_limits.max_memory_usage, 1024);
    assert_eq!(manager.operations.len(), 0);
    let processor = OperationProcessor::new(&manager.resource_limits);
    assert_eq!(processor.available_permits, 3);
    assert_eq!(manager.cleanup_config.max_completed_operations, 1000);
}

#[test]
fn test_concurrent_operation_limit() {
    let mut manager = OperationManager::new(limits(2));
    let mut processor = OperationProcessor::new(&manager.resource_limits);
    let types = [
        OperationType::AICompletion,
        OperationType::RagQuery,
        OperationType::CodeGeneration,
        OperationType::DocumentIndexing,
    ];
    for (i, t) in types.iter().enumerate() {
        processor.enqueue(&mut manager, typed_op(&format!("concurrent-{}", i + 1), *t, OperationPriority::Normal));
    }
    while processor.serve_next(&mut manager).is_some() {}
    let statuses: Vec<Option<OperationStatus>> =
        (1..=4).map(|i| manager.get_operation_status(&format!("concurrent-{}", i))).collect();
    assert_eq!(statuses.iter().filter(|s| **s == Some(OperationStatus::Running)).count(), 2);
    assert_eq!(statuses.iter().filter(|s| **s == Some(OperationStatus::Queued)).count(), 2);
    assert!(processor.running.len() <= 2);
}

#[test]
fn test_priority_queue_ordering() {
    let mut manager = OperationManager::new(limits(1));
    let mut processor = OperationProcessor::new(&manager.resource_limits);
    processor.enqueue(&mut manager, typed_op("low-priority", OperationType::ModelLoading, OperationPriority::Background));
    processor.enqueue(&mut manager, typed_op("normal-priority", OperationType::FileAnalysis, OperationPriority::Normal));
    processor.enqueue(&mut manager, typed_op("high-priority", OperationType::AICompletion, OperationPriority::Critical));
    while processor.serve_next(&mut manager).is_some() {}
    assert_eq!(manager.get_operation_status("high-priority"), Some(OperationStatus::Running));
    assert_eq!(manager.get_operation_status("normal-priority"), Some(OperationStatus::Queued));
    assert_eq!(manager.get_operation_status("low-priority"), Some(OperationStatus::Queued));
}

#[test]
fn test_operation_execution_completion() {
    let mut manager = OperationManager::new(limits(3));
    let mut processor = OperationProcessor::new(&manager.resource_limits);
    processor.enqueue(&mut manager, typed_op("exec-test-1", OperationType::FileAnalysis, OperationPriority::High));
    let op = processor.serve_next(&mut manager).unwrap();
    assert_eq!(operation_duration_ms(op.op_type), 200);
    manager.start_execution(&op);
    let result = operation_result(op.op_type);
    manager.finish_execution(op, 5, Ok(result));
    assert!(processor.release("exec-test-1"));
    assert_eq!(processor.available_permits, 3);
    match manager.get_operation_status("exec-test-1") {
        Some(OperationStatus::Completed { result: Some(v) }) => {
            let value: serde_json::Value = serde_json::from_str(&v).unwrap();
            assert_eq!(value["result"], "File analysis complete");
        }
        other => panic!("unexpected status {:?}", other),
    }
}

#[test]
fn released_permits_let_the_next_operation_run() {
    let mut manager = OperationManager::new(limits(1));
    let mut processor = OperationProcessor::new(&manager.resource_limits);
    processor.enqueue(&mut manager, typed_op("a", OperationType::RagQuery, OperationPriority::Normal));
    processor.enqueue(&mut manager, typed_op("b", OperationType::RagQuery, OperationPriority::Normal));
    assert_eq!(processor.serve_next(&mut manager).unwrap().id, "a");
    assert!(processor.serve_next(&mut manager).is_none());
    assert!(!processor.release("unknown"));
    assert!(processor.release("a"));
    assert_eq!(processor.serve_next(&mut manager).unwrap().id, "b");
    assert_eq!(processor.running, vec!["b".to_string()]);
}
