use socrates_core::health::{
    after_reconnect, retry_backoff, unavailable_error, Admission, ChromaHealthConfig, ChromaHealthMonitor, HealthConfig,
    HealthMonitor, SearXNGHealthConfig, SearXNGHealthMonitor,
};

#[test]
fn model_server_defaults() {
    let cfg = HealthConfig::default();
    assert_eq!(cfg.check_interval_seconds, 30);
    assert_eq!(cfg.timeout_seconds, 10);
    assert_eq!(cfg.max_retry_attempts, 3);
    assert_eq!(cfg.retry_backoff_seconds, 2);
    assert!(cfg.auto_reconnect);
    let m = HealthMonitor::new(cfg);
    assert!(!m.is_healthy());
    assert_eq!(m.get_stats().total_checks, 0);
}

#[test]
fn checks_update_counters() {
    let mut m = HealthMonitor::new(HealthConfig::default());
    m.record_check(true, 120, 1000);
    assert!(m.is_healthy());
    let s = m.get_stats();
    assert_eq!(s.total_checks, 1);
    assert_eq!(s.last_successful_check, Some(1000));
    m.record_check(false, 30, 1010);
    m.record_check(false, 50, 1020);
    let s = m.get_stats();
    assert!(!s.is_healthy);
    assert_eq!(s.consecutive_failures, 2);
    assert_eq!(s.total_failures, 2);
    assert_eq!(s.total_checks, 3);
    assert_eq!(s.total_response_time_ms, 200);
    assert_eq!(s.last_check_time, Some(1020));
    assert_eq!(s.last_successful_check, Some(1000));
    m.record_check(true, 10, 1030);
    assert!(m.is_healthy());
    assert_eq!(m.get_stats().consecutive_failures, 0);
}

#[test]
fn admission_by_health() {
    let mut m = HealthMonitor::new(HealthConfig::default());
    assert_eq!(m.admission(), Admission::Reconnect);
    m.record_check(true, 1, 1);
    assert_eq!(m.admission(), Admission::Proceed);
    let mut no_reconnect = HealthConfig::default();
    no_reconnect.auto_reconnect = false;
    let strict = HealthMonitor::new(no_reconnect);
    assert_eq!(strict.admission(), Admission::Refuse);
    assert_eq!(unavailable_error(), "Service is currently unavailable");
    assert_eq!(after_reconnect(Ok(false)).unwrap_err(), "Service is unavailable and reconnection failed");
    assert!(after_reconnect(Ok(true)).is_ok());
    assert!(after_reconnect(Err("network".to_string())).is_ok());
}

#[test]
fn retry_pauses_grow_with_attempts() {
    assert_eq!(retry_backoff(3, 2, 1), Some(2));
    assert_eq!(retry_backoff(3, 2, 2), Some(4));
    assert_eq!(retry_backoff(3, 2, 3), None);
    let m = HealthMonitor::new(HealthConfig::default());
    assert_eq!(m.backoff_after(2), Some(4));
}

#[test]
fn monitoring_flag() {
    let mut m = HealthMonitor::new(HealthConfig::default());
    assert!(!m.start_monitoring());
    assert!(m.start_monitoring());
    m.stop_monitoring();
    assert!(!m.is_monitoring);
}

#[test]
fn search_service_degrades_gracefully() {
    let mut m = SearXNGHealthMonitor::new(SearXNGHealthConfig::default());
    assert!(!m.is_available());
    m.record_check(true, 5, 100, None);
    assert!(m.is_available());
    assert!(!m.is_degraded());
    m.record_check(false, 5, 101, Some("refused"));
    assert!(m.is_available());
    assert!(m.is_degraded());
    assert_eq!(m.get_stats().degradation_reason.as_deref(), Some("Intermittent connectivity issues"));
    m.record_check(false, 5, 102, Some("refused"));
    let s = m.get_stats();
    assert!(!s.is_healthy);
    assert!(s.is_degraded);
    assert_eq!(s.degradation_reason.as_deref(), Some("Service unavailable: refused"));
    assert!(m.is_available());
    assert!(m.verdict_after_failures());
    m.record_check(false, 5, 103, None);
    m.record_check(false, 5, 104, None);
    assert_eq!(m.get_stats().degradation_reason.as_deref(), Some("Service unavailable: Connection failed"));
    assert!(!m.is_available());
    assert!(!m.verdict_after_failures());
    m.record_check(true, 5, 105, None);
    assert!(m.is_available());
    assert!(m.get_stats().degradation_reason.is_none());
}

#[test]
fn search_service_without_degradation() {
    let mut cfg = SearXNGHealthConfig::default();
    cfg.graceful_degradation = false;
    let mut m = SearXNGHealthMonitor::new(cfg);
    m.record_check(false, 5, 100, Some("x"));
    assert!(!m.is_available());
    assert!(!m.is_degraded());
    assert!(!m.verdict_after_failures());
    assert_eq!(m.backoff_after(1), Some(3));
}

#[test]
fn document_store_health() {
    let cfg = ChromaHealthConfig::default();
    assert_eq!(cfg.max_retry_attempts, 3);
    assert_eq!(cfg.operation_timeout_seconds, 30);
    let mut m = ChromaHealthMonitor::new(cfg);
    assert!(m.is_healthy());
    m.record_operation(false, 10, 1);
    m.record_operation(false, 10, 2);
    assert!(m.is_healthy());
    m.record_operation(false, 10, 3);
    assert!(!m.is_healthy());
    assert_eq!(m.get_stats().total_failures, 3);
    m.record_operation(true, 10, 4);
    assert!(m.is_healthy());
    assert_eq!(m.get_stats().last_successful_operation, Some(4));
    m.update_counts(2, 7, 7 * 1024, 5);
    let s = m.get_stats();
    assert_eq!(s.total_collections, 2);
    assert_eq!(s.total_documents, 7);
    assert_eq!(s.last_check_time, Some(5));
    m.touch(6);
    assert_eq!(m.get_stats().last_check_time, Some(6));
}

#[test]
fn test_health_check_when_service_down() {
    let mut m = SearXNGHealthMonitor::new(SearXNGHealthConfig::default());
    m.record_check(false, 5, 100, Some("connection refused"));
    assert!(!m.is_available());
    assert!(!m.verdict_after_failures());
}
