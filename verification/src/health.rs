//! Health tracking for the model server, the search service and the document
//! store: what each check or operation does to the statistics, when a service
//! counts as healthy or available, and how long to wait between retries.
//!
//! Response times are kept as a saturating sum of milliseconds; the average
//! is that sum over the number of checks.

use vstd::prelude::*;
use crate::text::{concat, owned};

verus! {

/// How the model server is watched.
#[derive(Clone, Copy, Debug, PartialEq, Eq, Structural)]
pub struct HealthConfig {
    pub check_interval_seconds: u64,
    pub timeout_seconds: u64,
    pub max_retry_attempts: u32,
    pub retry_backoff_seconds: u64,
    pub auto_reconnect: bool,
}

impl Default for HealthConfig {
    /// A check every 30 s with a 10 s timeout, 3 attempts 2 s apart (times
    /// the attempt number), reconnecting on demand.
    fn default() -> (r: Self)
        ensures
            r == (HealthConfig {
                check_interval_seconds: 30,
                timeout_seconds: 10,
                max_retry_attempts: 3,
                retry_backoff_seconds: 2,
                auto_reconnect: true,
            }),
    {
        HealthConfig {
            check_interval_seconds: 30,
            timeout_seconds: 10,
            max_retry_attempts: 3,
            retry_backoff_seconds: 2,
            auto_reconnect: true,
        }
    }
}

/// What the checks of the model server have shown so far.
#[derive(Clone, Copy, Debug, PartialEq, Eq, Structural)]
pub struct HealthStats {
    pub is_healthy: bool,
    pub last_check_time: Option<u64>,
    pub last_successful_check: Option<u64>,
    pub consecutive_failures: u32,
    pub total_checks: u64,
    pub total_failures: u64,
    pub total_response_time_ms: u64,
}

impl Default for HealthStats {
    /// Not yet healthy, nothing checked.
    fn default() -> (r: Self)
        ensures
            r == (HealthStats {
                is_healthy: false,
                last_check_time: None,
                last_successful_check: None,
                consecutive_failures: 0,
                total_checks: 0,
                total_failures: 0,
                total_response_time_ms: 0,
            }),
    {
        HealthStats {
            is_healthy: false,
            last_check_time: None,
            last_successful_check: None,
            consecutive_failures: 0,
            total_checks: 0,
            total_failures: 0,
            total_response_time_ms: 0,
        }
    }
}

/// The counters agree with each other: the failure streak is part of all
/// failures, which are part of all checks; a healthy service has no streak;
/// a successful check is a check.
pub open spec fn stats_consistent(s: HealthStats) -> bool {
    &&& s.consecutive_failures <= s.total_failures
    &&& s.total_failures <= s.total_checks
    &&& s.is_healthy ==> s.consecutive_failures == 0
    &&& s.last_successful_check is Some ==> s.last_check_time is Some
}

/// The statistics after one more check at `now` that took `response_ms`.
pub open spec fn after_check(s: HealthStats, success: bool, response_ms: u64, now: u64) -> HealthStats {
    HealthStats {
        is_healthy: success,
        last_check_time: Some(now),
        last_successful_check: if success {
            Some(now)
        } else {
            s.last_successful_check
        },
        consecutive_failures: if success {
            0
        } else {
            (s.consecutive_failures + 1) as u32
        },
        total_checks: (s.total_checks + 1) as u64,
        total_failures: if success {
            s.total_failures
        } else {
            (s.total_failures + 1) as u64
        },
        total_response_time_ms: s.total_response_time_ms.saturating_add(response_ms),
    }
}

/// Whether a check can be recorded without a counter running out.
pub open spec fn room_for_check(s: HealthStats) -> bool {
    s.total_checks < u64::MAX && s.consecutive_failures < u32::MAX
}

/// The service counts as healthy: the last check passed and the failure
/// streak is below the retry limit.
pub open spec fn healthy_under(s: HealthStats, cfg: HealthConfig) -> bool {
    s.is_healthy && s.consecutive_failures < cfg.max_retry_attempts
}

/// Watches the model server.
pub struct HealthMonitor {
    pub config: HealthConfig,
    pub stats: HealthStats,
    pub is_monitoring: bool,
}

/// What to do before an operation that needs the service.
#[derive(Clone, Copy, Debug, PartialEq, Eq, Structural)]
pub enum Admission {
    /// The service is healthy: go ahead.
    Proceed,
    /// The service is not healthy: check the connection first.
    Reconnect,
    /// The service is not healthy and reconnecting is off.
    Refuse,
}

impl HealthMonitor {
    /// A monitor with nothing checked yet, not monitoring.
    pub fn new(config: HealthConfig) -> (r: Self)
        ensures
            r.config == config,
            r.stats == (HealthStats {
                is_healthy: false,
                last_check_time: None,
                last_successful_check: None,
                consecutive_failures: 0,
                total_checks: 0,
                total_failures: 0,
                total_response_time_ms: 0,
            }),
            !r.is_monitoring,
            stats_consistent(r.stats),
    {
        HealthMonitor { config, stats: HealthStats::default(), is_monitoring: false }
    }

    /// The statistics so far.
    pub fn get_stats(&self) -> (r: HealthStats)
        ensures
            r == self.stats,
    {
        self.stats
    }

    /// Records one check at `now` that took `response_ms`: a success makes
    /// the service healthy and ends the failure streak, a failure makes it
    /// unhealthy and lengthens the streak.
    pub fn record_check(&mut self, success: bool, response_ms: u64, now: u64)
        requires
            room_for_check(old(self).stats),
            stats_consistent(old(self).stats),
        ensures
            final(self).stats == after_check(old(self).stats, success, response_ms, now),
            final(self).config == old(self).config,
            final(self).is_monitoring == old(self).is_monitoring,
            stats_consistent(final(self).stats),
    {
        let s = self.stats;
        self.stats = HealthStats {
            is_healthy: success,
            last_check_time: Some(now),
            last_successful_check: if success {
                Some(now)
            } else {
                s.last_successful_check
            },
            consecutive_failures: if success {
                0
            } else {
                s.consecutive_failures + 1
            },
            total_checks: s.total_checks + 1,
            total_failures: if success {
                s.total_failures
            } else {
                s.total_failures + 1
            },
            total_response_time_ms: s.total_response_time_ms.saturating_add(response_ms),
        };
    }

    /// Whether the service counts as healthy.
    pub fn is_healthy(&self) -> (r: bool)
        ensures
            r == healthy_under(self.stats, self.config),
    {
        self.stats.is_healthy && self.stats.consecutive_failures < self.config.max_retry_attempts
    }

    /// Marks monitoring as started; returns whether it had been already, in
    /// which case no second monitor loop is to be started.
    pub fn start_monitoring(&mut self) -> (was_running: bool)
        ensures
            was_running == old(self).is_monitoring,
            final(self).is_monitoring,
            final(self).config == old(self).config,
            final(self).stats == old(self).stats,
    {
        let was = self.is_monitoring;
        self.is_monitoring = true;
        was
    }

    /// Marks monitoring as stopped.
    pub fn stop_monitoring(&mut self)
        ensures
            !final(self).is_monitoring,
            final(self).config == old(self).config,
            final(self).stats == old(self).stats,
    {
        self.is_monitoring = false;
    }

    /// What to do before an operation that needs the service.
    pub fn admission(&self) -> (r: Admission)
        ensures
            healthy_under(self.stats, self.config) ==> r == Admission::Proceed,
            !healthy_under(self.stats, self.config) && self.config.auto_reconnect ==> r == Admission::Reconnect,
            !healthy_under(self.stats, self.config) && !self.config.auto_reconnect ==> r == Admission::Refuse,
    {
        if self.is_healthy() {
            Admission::Proceed
        } else if self.config.auto_reconnect {
            Admission::Reconnect
        } else {
            Admission::Refuse
        }
    }

    /// The pause after failed attempt `attempt` of a retry loop.
    pub fn backoff_after(&self, attempt: u32) -> (r: Option<u64>)
        requires
            attempt < self.config.max_retry_attempts ==> self.config.retry_backoff_seconds * attempt <= u64::MAX,
        ensures
            r == backoff(self.config.max_retry_attempts, self.config.retry_backoff_seconds, attempt),
    {
        retry_backoff(self.config.max_retry_attempts, self.config.retry_backoff_seconds, attempt)
    }
}

/// The error of an operation refused because the service is down and
/// reconnecting is off.
pub fn unavailable_error() -> (r: String)
    ensures
        r@ == "Service is currently unavailable"@,
{
    owned("Service is currently unavailable")
}

/// After a reconnection attempt: a check that reached the service and found
/// it unhealthy refuses the operation; otherwise the operation goes ahead.
pub fn after_reconnect(check: Result<bool, String>) -> (r: Result<(), String>)
    ensures
        check == Ok::<bool, String>(false) ==> (r matches Err(e) && e@ == "Service is unavailable and reconnection failed"@),
        check != Ok::<bool, String>(false) ==> r is Ok,
{
    match check {
        Ok(false) => Err(owned("Service is unavailable and reconnection failed")),
        _ => Ok(()),
    }
}

/// The pause, in seconds, after failed attempt `attempt` of `max_attempts`:
/// the backoff times the attempt number, or none after the last attempt.
pub open spec fn backoff(max_attempts: u32, backoff_seconds: u64, attempt: u32) -> Option<u64> {
    if attempt < max_attempts {
        Some((backoff_seconds * attempt) as u64)
    } else {
        None
    }
}

/// The pause after failed attempt `attempt`; `None` once the attempts are
/// used up.
pub fn retry_backoff(max_attempts: u32, backoff_seconds: u64, attempt: u32) -> (r: Option<u64>)
    requires
        attempt < max_attempts ==> backoff_seconds * attempt <= u64::MAX,
    ensures
        r == backoff(max_attempts, backoff_seconds, attempt),
{
    if attempt < max_attempts {
        Some(backoff_seconds * attempt as u64)
    } else {
        None
    }
}

// ---------------------------------------------------------------------------
// The search service, which degrades gracefully.

/// How the search service is watched.
#[derive(Clone, Copy, Debug, PartialEq, Eq, Structural)]
pub struct SearXNGHealthConfig {
    pub check_interval_seconds: u64,
    pub timeout_seconds: u64,
    pub max_retry_attempts: u32,
    pub retry_backoff_seconds: u64,
    pub auto_reconnect: bool,
    pub graceful_degradation: bool,
}

impl Default for SearXNGHealthConfig {
    /// A check every minute with a 15 s timeout, 2 attempts 3 s apart (times
    /// the attempt number), reconnecting, degrading gracefully.
    fn default() -> (r: Self)
        ensures
            r == (SearXNGHealthConfig {
                check_interval_seconds: 60,
                timeout_seconds: 15,
                max_retry_attempts: 2,
                retry_backoff_seconds: 3,
                auto_reconnect: true,
                graceful_degradation: true,
            }),
    {
        SearXNGHealthConfig {
            check_interval_seconds: 60,
            timeout_seconds: 15,
            max_retry_attempts: 2,
            retry_backoff_seconds: 3,
            auto_reconnect: true,
            graceful_degradation: true,
        }
    }
}

/// What the checks of the search service have shown so far.
#[derive(Debug)]
pub struct SearXNGHealthStats {
    pub is_healthy: bool,
    pub is_degraded: bool,
    pub last_check_time: Option<u64>,
    pub last_successful_check: Option<u64>,
    pub consecutive_failures: u32,
    pub total_checks: u64,
    pub total_failures: u64,
    pub total_response_time_ms: u64,
    pub degradation_reason: Option<String>,
}

/// The reason given when failures reach the retry limit.
pub open spec fn unavailable_reason(error: Option<Seq<char>>) -> Seq<char> {
    "Service unavailable: "@ + match error {
        Some(e) => e,
        None => "Connection failed"@,
    }
}

/// The search statistics after one more check, as plain values: health,
/// degradation, the streak, and the reason.
pub open spec fn searx_after(
    s: SearXNGHealthStats,
    cfg: SearXNGHealthConfig,
    success: bool,
    response_ms: u64,
    now: u64,
    error: Option<Seq<char>>,
) -> (bool, bool, u32, Option<Seq<char>>) {
    let streak = (s.consecutive_failures + 1) as u32;
    if success {
        (true, false, 0, None)
    } else if !cfg.graceful_degradation {
        (false, false, streak, match s.degradation_reason {
            Some(r) => Some(r@),
            None => None,
        })
    } else if streak >= cfg.max_retry_attempts {
        (false, true, streak, Some(unavailable_reason(error)))
    } else {
        (true, true, streak, Some("Intermittent connectivity issues"@))
    }
}

/// The search service counts as available: healthy, or, degrading
/// gracefully, healthy or degraded with a failure streak below twice the
/// retry limit, provided a check has reached it at some time (a service that
/// has never answered is down, however short the streak).
pub open spec fn searx_available(s: SearXNGHealthStats, cfg: SearXNGHealthConfig) -> bool {
    if cfg.graceful_degradation {
        s.last_successful_check is Some && (s.is_healthy || (s.is_degraded && s.consecutive_failures
            < cfg.max_retry_attempts * 2))
    } else {
        s.is_healthy
    }
}

/// Watches the search service.
pub struct SearXNGHealthMonitor {
    pub config: SearXNGHealthConfig,
    pub stats: SearXNGHealthStats,
    pub is_monitoring: bool,
}

fn copy_reason(r: &Option<String>) -> (c: Option<String>)
    ensures
        c == *r,
{
    match r {
        Some(t) => Some(t.clone()),
        None => None,
    }
}

/// The view of an optional string.
pub open spec fn opt_view(r: Option<String>) -> Option<Seq<char>> {
    match r {
        Some(t) => Some(t@),
        None => None,
    }
}

/// What the search tool does instead of searching, or that it searches.
#[derive(Debug)]
pub enum SearchPlan {
    /// The service is not available: fail with this error.
    Unavailable { error: String },
    /// The service is degraded: answer with a single notice whose text is
    /// `content`.
    Degraded { content: String },
    /// The service is healthy: search.
    Search,
}

/// The text of the notice given while the search service is degraded.
pub open spec fn degraded_notice(reason: Option<Seq<char>>) -> Seq<char> {
    "Search functionality is currently limited due to service issues: "@ + match reason {
        Some(r) => r,
        None => "Service is experiencing issues"@,
    } + ". Please try again later."@
}

impl SearXNGHealthMonitor {
    /// A monitor with nothing checked yet, not monitoring.
    pub fn new(config: SearXNGHealthConfig) -> (r: Self)
        ensures
            r.config == config,
            !r.stats.is_healthy,
            !r.stats.is_degraded,
            r.stats.last_check_time is None,
            r.stats.last_successful_check is None,
            r.stats.consecutive_failures == 0,
            r.stats.total_checks == 0,
            r.stats.total_failures == 0,
            r.stats.total_response_time_ms == 0,
            r.stats.degradation_reason is None,
            !r.is_monitoring,
    {
        SearXNGHealthMonitor {
            config,
            stats: SearXNGHealthStats {
                is_healthy: false,
                is_degraded: false,
                last_check_time: None,
                last_successful_check: None,
                consecutive_failures: 0,
                total_checks: 0,
                total_failures: 0,
                total_response_time_ms: 0,
                degradation_reason: None,
            },
            is_monitoring: false,
        }
    }

    /// A copy of the statistics so far.
    pub fn get_stats(&self) -> (r: SearXNGHealthStats)
        ensures
            r == self.stats,
    {
        SearXNGHealthStats {
            is_healthy: self.stats.is_healthy,
            is_degraded: self.stats.is_degraded,
            last_check_time: self.stats.last_check_time,
            last_successful_check: self.stats.last_successful_check,
            consecutive_failures: self.stats.consecutive_failures,
            total_checks: self.stats.total_checks,
            total_failures: self.stats.total_failures,
            total_response_time_ms: self.stats.total_response_time_ms,
            degradation_reason: copy_reason(&self.stats.degradation_reason),
        }
    }

    /// Records one check at `now`. A success makes the service healthy and
    /// not degraded. A failure lengthens the streak; degrading gracefully,
    /// the service stays healthy but degraded until the streak reaches the
    /// retry limit and is then unhealthy and degraded with the error as the
    /// reason; otherwise it is simply unhealthy.
    pub fn record_check(&mut self, success: bool, response_ms: u64, now: u64, error: Option<&str>)
        requires
            old(self).stats.total_checks < u64::MAX,
            old(self).stats.total_failures < u64::MAX,
            old(self).stats.consecutive_failures < u32::MAX,
        ensures
            ({
                let t = searx_after(
                    old(self).stats,
                    old(self).config,
                    success,
                    response_ms,
                    now,
                    match error {
                        Some(e) => Some(e@),
                        None => None,
                    },
                );
                &&& final(self).stats.is_healthy == t.0
                &&& final(self).stats.is_degraded == t.1
                &&& final(self).stats.consecutive_failures == t.2
                &&& opt_view(final(self).stats.degradation_reason) == t.3
            }),
            final(self).stats.last_check_time == Some(now),
            final(self).stats.last_successful_check == if success {
                Some(now)
            } else {
                old(self).stats.last_successful_check
            },
            final(self).stats.total_checks == old(self).stats.total_checks + 1,
            final(self).stats.total_failures == old(self).stats.total_failures + if success {
                0int
            } else {
                1int
            },
            final(self).stats.total_response_time_ms == old(self).stats.total_response_time_ms.saturating_add(
                response_ms,
            ),
            final(self).config == old(self).config,
            final(self).is_monitoring == old(self).is_monitoring,
    {
        self.stats.last_check_time = Some(now);
        self.stats.total_checks = self.stats.total_checks + 1;
        if success {
            self.stats.is_healthy = true;
            self.stats.is_degraded = false;
            self.stats.last_successful_check = Some(now);
            self.stats.consecutive_failures = 0;
            self.stats.degradation_reason = None;
        } else {
            self.stats.consecutive_failures = self.stats.consecutive_failures + 1;
            self.stats.total_failures = self.stats.total_failures + 1;
            if self.config.graceful_degradation {
                if self.stats.consecutive_failures >= self.config.max_retry_attempts {
                    self.stats.is_healthy = false;
                    self.stats.is_degraded = true;
                    let detail = match error {
                        Some(e) => e,
                        None => "Connection failed",
                    };
                    self.stats.degradation_reason = Some(concat("Service unavailable: ", detail));
                } else {
                    self.stats.is_healthy = true;
                    self.stats.is_degraded = true;
                    self.stats.degradation_reason = Some(owned("Intermittent connectivity issues"));
                }
            } else {
                self.stats.is_healthy = false;
                self.stats.is_degraded = false;
            }
        }
        self.stats.total_response_time_ms = self.stats.total_response_time_ms.saturating_add(response_ms);
    }

    /// Whether the service is available: healthy, or degraded but with a
    /// failure streak below twice the retry limit, once it has ever been
    /// reached.
    pub fn is_available(&self) -> (r: bool)
        requires
            self.config.graceful_degradation ==> self.config.max_retry_attempts * 2 <= u32::MAX,
        ensures
            r == searx_available(self.stats, self.config),
    {
        if self.config.graceful_degradation {
            self.stats.last_successful_check.is_some() && (self.stats.is_healthy || (self.stats.is_degraded
                && self.stats.consecutive_failures < self.config.max_retry_attempts * 2))
        } else {
            self.stats.is_healthy
        }
    }

    /// Whether the service is degraded.
    pub fn is_degraded(&self) -> (r: bool)
        ensures
            r == self.stats.is_degraded,
    {
        self.stats.is_degraded
    }

    /// What a connection check reports once every attempt has failed (and
    /// the failure has been recorded): degrading gracefully, whether the
    /// service is still available; otherwise that it is not.
    pub fn verdict_after_failures(&self) -> (r: bool)
        requires
            self.config.graceful_degradation ==> self.config.max_retry_attempts * 2 <= u32::MAX,
        ensures
            r == (self.config.graceful_degradation && searx_available(self.stats, self.config)),
    {
        if self.config.graceful_degradation {
            self.is_available()
        } else {
            false
        }
    }

    /// What a search with fallback does: fail when the service is not
    /// available, answer with a notice when it is degraded, search otherwise.
    pub fn search_plan(&self) -> (r: SearchPlan)
        requires
            self.config.graceful_degradation ==> self.config.max_retry_attempts * 2 <= u32::MAX,
        ensures
            !searx_available(self.stats, self.config) ==> (r matches SearchPlan::Unavailable { error }
                && error@ == "SearXNG service is currently unavailable"@),
            searx_available(self.stats, self.config) && self.stats.is_degraded ==> (r matches SearchPlan::Degraded {
                content,
            } && content@ == degraded_notice(opt_view(self.stats.degradation_reason))),
            searx_available(self.stats, self.config) && !self.stats.is_degraded ==> r is Search,
    {
        if !self.is_available() {
            return SearchPlan::Unavailable { error: owned("SearXNG service is currently unavailable") };
        }
        if self.is_degraded() {
            let head = match &self.stats.degradation_reason {
                Some(reason) => concat(
                    "Search functionality is currently limited due to service issues: ",
                    reason.as_str(),
                ),
                None => concat(
                    "Search functionality is currently limited due to service issues: ",
                    "Service is experiencing issues",
                ),
            };
            let content = concat(head.as_str(), ". Please try again later.");
            return SearchPlan::Degraded { content };
        }
        SearchPlan::Search
    }

    /// Marks monitoring as started; returns whether it had been already.
    pub fn start_monitoring(&mut self) -> (was_running: bool)
        ensures
            was_running == old(self).is_monitoring,
            final(self).is_monitoring,
            final(self).config == old(self).config,
            final(self).stats == old(self).stats,
    {
        let was = self.is_monitoring;
        self.is_monitoring = true;
        was
    }

    /// Marks monitoring as stopped.
    pub fn stop_monitoring(&mut self)
        ensures
            !final(self).is_monitoring,
            final(self).config == old(self).config,
            final(self).stats == old(self).stats,
    {
        self.is_monitoring = false;
    }

    /// The pause after failed attempt `attempt` of a retry loop.
    pub fn backoff_after(&self, attempt: u32) -> (r: Option<u64>)
        requires
            attempt < self.config.max_retry_attempts ==> self.config.retry_backoff_seconds * attempt <= u64::MAX,
        ensures
            r == backoff(self.config.max_retry_attempts, self.config.retry_backoff_seconds, attempt),
    {
        retry_backoff(self.config.max_retry_attempts, self.config.retry_backoff_seconds, attempt)
    }
}

// ---------------------------------------------------------------------------
// The document store.

/// How the document store is watched.
#[derive(Clone, Copy, Debug, PartialEq, Eq, Structural)]
pub struct ChromaHealthConfig {
    pub check_interval_seconds: u64,
    pub timeout_seconds: u64,
    pub max_retry_attempts: u32,
    pub retry_backoff_seconds: u64,
    pub auto_recovery: bool,
    pub operation_timeout_seconds: u64,
}

impl Default for ChromaHealthConfig {
    /// A check every 30 s with a 5 s timeout, 3 attempts 1 s apart (times the
    /// attempt number), recovering automatically, operations limited to 30 s.
    fn default() -> (r: Self)
        ensures
            r == (ChromaHealthConfig {
                check_interval_seconds: 30,
                timeout_seconds: 5,
                max_retry_attempts: 3,
                retry_backoff_seconds: 1,
                auto_recovery: true,
                operation_timeout_seconds: 30,
            }),
    {
        ChromaHealthConfig {
            check_interval_seconds: 30,
            timeout_seconds: 5,
            max_retry_attempts: 3,
            retry_backoff_seconds: 1,
            auto_recovery: true,
            operation_timeout_seconds: 30,
        }
    }
}

/// What the operations on the document store have shown so far.
#[derive(Clone, Copy, Debug, PartialEq, Eq, Structural)]
pub struct ChromaHealthStats {
    pub is_healthy: bool,
    pub last_check_time: Option<u64>,
    pub last_successful_operation: Option<u64>,
    pub consecutive_failures: u32,
    pub total_operations: u64,
    pub total_failures: u64,
    pub total_operation_time_ms: u64,
    pub total_collections: usize,
    pub total_documents: usize,
    pub memory_usage_estimate_bytes: usize,
}

impl Default for ChromaHealthStats {
    /// Healthy (the store is in memory), nothing recorded.
    fn default() -> (r: Self)
        ensures
            r == (ChromaHealthStats {
                is_healthy: true,
                last_check_time: None,
                last_successful_operation: None,
                consecutive_failures: 0,
                total_operations: 0,
                total_failures: 0,
                total_operation_time_ms: 0,
                total_collections: 0,
                total_documents: 0,
                memory_usage_estimate_bytes: 0,
            }),
    {
        ChromaHealthStats {
            is_healthy: true,
            last_check_time: None,
            last_successful_operation: None,
            consecutive_failures: 0,
            total_operations: 0,
            total_failures: 0,
            total_operation_time_ms: 0,
            total_collections: 0,
            total_documents: 0,
            memory_usage_estimate_bytes: 0,
        }
    }
}

/// The store statistics after one more operation at `now`.
pub open spec fn after_operation(
    s: ChromaHealthStats,
    cfg: ChromaHealthConfig,
    success: bool,
    operation_ms: u64,
    now: u64,
) -> ChromaHealthStats {
    let streak = (s.consecutive_failures + 1) as u32;
    ChromaHealthStats {
        is_healthy: if success {
            true
        } else if streak >= cfg.max_retry_attempts {
            false
        } else {
            s.is_healthy
        },
        last_successful_operation: if success {
            Some(now)
        } else {
            s.last_successful_operation
        },
        consecutive_failures: if success {
            0
        } else {
            streak
        },
        total_operations: (s.total_operations + 1) as u64,
        total_failures: if success {
            s.total_failures
        } else {
            (s.total_failures + 1) as u64
        },
        total_operation_time_ms: s.total_operation_time_ms.saturating_add(operation_ms),
        ..s
    }
}

/// The store counts as healthy: marked healthy with a failure streak below
/// the retry limit.
pub open spec fn store_healthy(s: ChromaHealthStats, cfg: ChromaHealthConfig) -> bool {
    s.is_healthy && s.consecutive_failures < cfg.max_retry_attempts
}

/// Watches the document store.
pub struct ChromaHealthMonitor {
    pub config: ChromaHealthConfig,
    pub stats: ChromaHealthStats,
    pub is_monitoring: bool,
}

impl ChromaHealthMonitor {
    /// A monitor with nothing recorded, not monitoring.
    pub fn new(config: ChromaHealthConfig) -> (r: Self)
        ensures
            r.config == config,
            r.stats == (ChromaHealthStats {
                is_healthy: true,
                last_check_time: None,
                last_successful_operation: None,
                consecutive_failures: 0,
                total_operations: 0,
                total_failures: 0,
                total_operation_time_ms: 0,
                total_collections: 0,
                total_documents: 0,
                memory_usage_estimate_bytes: 0,
            }),
            !r.is_monitoring,
    {
        ChromaHealthMonitor { config, stats: ChromaHealthStats::default(), is_monitoring: false }
    }

    /// The statistics so far.
    pub fn get_stats(&self) -> (r: ChromaHealthStats)
        ensures
            r == self.stats,
    {
        self.stats
    }

    /// Records one operation at `now`: a success makes the store healthy and
    /// ends the streak; a failure lengthens it and, once it reaches the retry
    /// limit, makes the store unhealthy.
    pub fn record_operation(&mut self, success: bool, operation_ms: u64, now: u64)
        requires
            old(self).stats.total_operations < u64::MAX,
            old(self).stats.total_failures < u64::MAX,
            old(self).stats.consecutive_failures < u32::MAX,
        ensures
            final(self).stats == after_operation(old(self).stats, old(self).config, success, operation_ms, now),
            final(self).config == old(self).config,
            final(self).is_monitoring == old(self).is_monitoring,
    {
        self.stats.total_operations = self.stats.total_operations + 1;
        if success {
            self.stats.is_healthy = true;
            self.stats.last_successful_operation = Some(now);
            self.stats.consecutive_failures = 0;
        } else {
            self.stats.consecutive_failures = self.stats.consecutive_failures + 1;
            self.stats.total_failures = self.stats.total_failures + 1;
            if self.stats.consecutive_failures >= self.config.max_retry_attempts {
                self.stats.is_healthy = false;
            }
        }
        self.stats.total_operation_time_ms = self.stats.total_operation_time_ms.saturating_add(operation_ms);
    }

    /// Records the collection and document counts and the memory estimate,
    /// stamped `now`.
    pub fn update_counts(&mut self, collections: usize, documents: usize, memory_estimate: usize, now: u64)
        ensures
            final(self).stats == (ChromaHealthStats {
                total_collections: collections,
                total_documents: documents,
                memory_usage_estimate_bytes: memory_estimate,
                last_check_time: Some(now),
                ..old(self).stats
            }),
            final(self).config == old(self).config,
            final(self).is_monitoring == old(self).is_monitoring,
    {
        self.stats.total_collections = collections;
        self.stats.total_documents = documents;
        self.stats.memory_usage_estimate_bytes = memory_estimate;
        self.stats.last_check_time = Some(now);
    }

    /// Marks a periodic check at `now`.
    pub fn touch(&mut self, now: u64)
        ensures
            final(self).stats == (ChromaHealthStats { last_check_time: Some(now), ..old(self).stats }),
            final(self).config == old(self).config,
            final(self).is_monitoring == old(self).is_monitoring,
    {
        self.stats.last_check_time = Some(now);
    }

    /// Whether the store counts as healthy.
    pub fn is_healthy(&self) -> (r: bool)
        ensures
            r == store_healthy(self.stats, self.config),
    {
        self.stats.is_healthy && self.stats.consecutive_failures < self.config.max_retry_attempts
    }

    /// Marks monitoring as started; returns whether it had been already.
    pub fn start_monitoring(&mut self) -> (was_running: bool)
        ensures
            was_running == old(self).is_monitoring,
            final(self).is_monitoring,
            final(self).config == old(self).config,
            final(self).stats == old(self).stats,
    {
        let was = self.is_monitoring;
        self.is_monitoring = true;
        was
    }

    /// Marks monitoring as stopped.
    pub fn stop_monitoring(&mut self)
        ensures
            !final(self).is_monitoring,
            final(self).config == old(self).config,
            final(self).stats == old(self).stats,
    {
        self.is_monitoring = false;
    }

    /// The pause after failed attempt `attempt` of a retry loop.
    pub fn backoff_after(&self, attempt: u32) -> (r: Option<u64>)
        requires
            attempt < self.config.max_retry_attempts ==> self.config.retry_backoff_seconds * attempt <= u64::MAX,
        ensures
            r == backoff(self.config.max_retry_attempts, self.config.retry_backoff_seconds, attempt),
    {
        retry_backoff(self.config.max_retry_attempts, self.config.retry_backoff_seconds, attempt)
    }
}

// ---------------------------------------------------------------------------
// Laws.

/// Every check keeps the model-server counters consistent.
pub proof fn law_check_keeps_counters_consistent(s: HealthStats, success: bool, response_ms: u64, now: u64)
    requires
        stats_consistent(s),
        room_for_check(s),
    ensures
        stats_consistent(after_check(s, success, response_ms, now)),
{
}

/// A successful check makes the model server healthy (given a positive retry
/// limit), and a failed one makes it unhealthy.
pub proof fn law_check_decides_health(s: HealthStats, cfg: HealthConfig, response_ms: u64, now: u64)
    requires
        cfg.max_retry_attempts > 0,
    ensures
        healthy_under(after_check(s, true, response_ms, now), cfg),
        !healthy_under(after_check(s, false, response_ms, now), cfg),
{
}

/// Degrading gracefully, a search service that has answered before stays
/// available after a failed check exactly while the failure streak stays
/// below twice the retry limit.
pub proof fn law_graceful_availability(
    s: SearXNGHealthStats,
    cfg: SearXNGHealthConfig,
    response_ms: u64,
    now: u64,
    error: Option<Seq<char>>,
)
    requires
        cfg.graceful_degradation,
        cfg.max_retry_attempts * 2 <= u32::MAX,
        s.consecutive_failures < u32::MAX,
    ensures
        ({
            let t = searx_after(s, cfg, false, response_ms, now, error);
            &&& t.1
            &&& t.2 == s.consecutive_failures + 1
            &&& (t.0 || (t.1 && t.2 < cfg.max_retry_attempts * 2)) <==> s.consecutive_failures + 1
                < cfg.max_retry_attempts * 2
        }),
{
}

/// A search service that has never answered a check is not available,
/// whatever the failed checks and the degradation policy: a connection check
/// on a service that is down reports it down.
pub proof fn law_unreached_service_is_down(s: SearXNGHealthStats, cfg: SearXNGHealthConfig)
    requires
        s.last_successful_check is None,
        !s.is_healthy || cfg.graceful_degradation,
    ensures
        !searx_available(s, cfg),
{
}

/// Without graceful degradation a failed check leaves the search service
/// unavailable, and a successful one always makes it available and not
/// degraded.
pub proof fn law_strict_availability(
    s: SearXNGHealthStats,
    cfg: SearXNGHealthConfig,
    response_ms: u64,
    now: u64,
    error: Option<Seq<char>>,
)
    ensures
        !cfg.graceful_degradation ==> !searx_after(s, cfg, false, response_ms, now, error).0
            && !searx_after(s, cfg, false, response_ms, now, error).1,
        searx_after(s, cfg, true, response_ms, now, error).0,
        !searx_after(s, cfg, true, response_ms, now, error).1,
{
}

/// The store statistics after `k` failed operations in a row at `now`.
pub open spec fn after_failures(s: ChromaHealthStats, cfg: ChromaHealthConfig, k: nat, now: u64) -> ChromaHealthStats
    decreases k,
{
    if k == 0 {
        s
    } else {
        after_operation(after_failures(s, cfg, (k - 1) as nat, now), cfg, false, 0, now)
    }
}

/// A run of failed operations lengthens the failure streak one by one, and
/// once the streak has reached the retry limit the store is unhealthy.
pub proof fn law_store_failure_run(s: ChromaHealthStats, cfg: ChromaHealthConfig, k: nat, now: u64)
    requires
        s.consecutive_failures + k < u32::MAX,
        s.total_operations + k < u64::MAX,
        s.total_failures + k < u64::MAX,
    ensures
        after_failures(s, cfg, k, now).consecutive_failures == s.consecutive_failures + k,
        after_failures(s, cfg, k, now).total_failures == s.total_failures + k,
        after_failures(s, cfg, k, now).total_operations == s.total_operations + k,
        k >= 1 && s.consecutive_failures + k >= cfg.max_retry_attempts ==> !store_healthy(
            after_failures(s, cfg, k, now),
            cfg,
        ),
    decreases k,
{
    if k > 0 {
        law_store_failure_run(s, cfg, (k - 1) as nat, now);
    }
}

/// A successful operation makes the store healthy again (given a positive
/// retry limit).
pub proof fn law_store_success_heals(s: ChromaHealthStats, cfg: ChromaHealthConfig, operation_ms: u64, now: u64)
    requires
        cfg.max_retry_attempts > 0,
    ensures
        store_healthy(after_operation(s, cfg, true, operation_ms, now), cfg),
{
}

} // verus!
