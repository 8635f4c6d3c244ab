use sidecar::config::{Config, ConfigError};
use sidecar::fetcher::{FetchError, FetchOutcome};
use sidecar::heartbeat::{marker_age, HeartbeatAction, HeartbeatMonitor};
use sidecar::supervisor::{after_wait, LoopControl, Supervisor, WaitEnd, Worker};
use sidecar::sync::{plan_tick, wait_after, BatchRun, ListOutcome, SyncDirective};

fn fires(obs: &[Option<u64>]) -> usize {
    let mut m = HeartbeatMonitor::new();
    let mut n = 0;
    for o in obs {
        if m.observe(*o) == HeartbeatAction::Deactivate {
            n += 1;
        }
    }
    n
}

#[test]
fn heartbeat_fires_once_per_falling_edge() {
    let fresh = Some(10);
    let stale = Some(61);
    assert_eq!(fires(&[fresh, stale, stale, stale, fresh, stale]), 2);
}

#[test]
fn heartbeat_threshold_and_missing_marker() {
    assert_eq!(fires(&[Some(60)]), 0);
    assert_eq!(fires(&[Some(61)]), 1);
    assert_eq!(fires(&[Some(61), None, Some(61)]), 1);
    assert_eq!(fires(&[None, None]), 0);
    let mut m = HeartbeatMonitor::new();
    assert_eq!(m.observe(Some(100)), HeartbeatAction::Deactivate);
    assert!(!m.running);
    assert_eq!(m.observe(None), HeartbeatAction::Idle);
    assert!(!m.running);
    assert_eq!(m.observe(Some(0)), HeartbeatAction::Idle);
    assert!(m.running);
}

#[test]
fn marker_age_saturates() {
    assert_eq!(marker_age(100, 40), 60);
    assert_eq!(marker_age(40, 100), 0);
}

fn directive(id: u64, path: &str) -> SyncDirective {
    SyncDirective::new(Some(id), format!("https://files/{}", id), path.to_string())
}

#[test]
fn failed_fetch_does_not_stop_the_batch() {
    let ds = vec![directive(1, "a"), directive(2, "b"), directive(3, "c")];
    let mut run = BatchRun::new(ds);
    let results = [
        Ok(FetchOutcome::Written),
        Err(FetchError::SourceUnreachable),
        Ok(FetchOutcome::Skipped),
    ];
    let mut acks = Vec::new();
    let mut seen = Vec::new();
    for r in results.iter() {
        let d = run.current().unwrap();
        seen.push(d.path.clone());
        if let Some(id) = run.record(r) {
            acks.push(id);
        }
    }
    assert!(run.is_done());
    assert!(run.current().is_none());
    assert_eq!(seen, vec!["a", "b", "c"]);
    assert_eq!(acks, vec![1, 3]);
    assert_eq!(run.acked_ids(), &vec![1, 3]);
}

#[test]
fn directive_without_id_is_not_acknowledged() {
    let ds = vec![SyncDirective::new(None, "u".to_string(), "p".to_string())];
    let mut run = BatchRun::new(ds);
    assert_eq!(run.record(&Ok(FetchOutcome::Written)), None);
    assert!(run.is_done());
}

#[test]
fn malformed_listing_retries_sooner_then_recovers() {
    assert_eq!(wait_after(&ListOutcome::Malformed), 10);
    assert_eq!(wait_after(&ListOutcome::Unreachable), 30);
    let first = plan_tick(ListOutcome::Malformed);
    assert!(first.batch.is_none());
    assert_eq!(first.wait_secs, 10);
    let second = plan_tick(ListOutcome::Listed(vec![directive(7, "x.json")]));
    assert_eq!(second.wait_secs, 30);
    let mut run = second.batch.unwrap();
    assert_eq!(run.current().unwrap().id, Some(7));
    assert_eq!(run.record(&Ok(FetchOutcome::Written)), Some(7));
    assert!(run.is_done());
}

#[test]
fn shutdown_waits_for_both_workers() {
    let mut s = Supervisor::new();
    assert!(!s.is_shut_down());
    assert_eq!(after_wait(WaitEnd::Elapsed), LoopControl::Continue);
    s.cancel();
    s.cancel();
    assert!(s.cancelled);
    assert_eq!(after_wait(WaitEnd::Cancelled), LoopControl::Stop);
    assert!(!s.is_shut_down());
    s.worker_exited(Worker::Sync);
    assert!(!s.is_shut_down());
    s.worker_exited(Worker::Heartbeat);
    assert!(s.is_shut_down());
}

#[test]
fn config_requires_identity_and_secret() {
    let missing_user = Config::from_values(None, Some("s".to_string()), None, None, None);
    assert_eq!(missing_user.err(), Some(ConfigError::MissingUser));
    let missing_secret = Config::from_values(Some("u".to_string()), None, None, None, None);
    assert_eq!(missing_secret.err(), Some(ConfigError::MissingSecret));
    let c = Config::from_values(Some("u".to_string()), Some("s".to_string()), None, None, None)
        .unwrap();
    assert_eq!(c.base_url, "https://code.squid.pink");
    assert_eq!(c.auth_header, "Authorization");
    assert_eq!(c.grace_secs, 0);
}

#[test]
fn config_endpoints_and_credential() {
    let c = Config::from_values(
        Some("alice".to_string()),
        Some("k".to_string()),
        Some("http://api".to_string()),
        Some("Authentication".to_string()),
        Some(5),
    )
    .unwrap();
    assert_eq!(c.auth_value(), "alice:k");
    assert_eq!(c.file_sync_url(), "http://api/apps/file-sync/alice/");
    assert_eq!(c.deactivate_url(), "http://api/deployments/alice/token-bypass");
    assert_eq!(c.auth_header, "Authentication");
    assert_eq!(c.grace_secs, 5);
}
