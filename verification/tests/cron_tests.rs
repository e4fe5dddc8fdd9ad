use zeptoclaw::cron::dispatch_timeout_ms;
use zeptoclaw::cron::error_backoff_ms;
use zeptoclaw::cron::next_run_at;
use zeptoclaw::cron::should_skip_missed_dispatch;
use zeptoclaw::cron::CronJob;
use zeptoclaw::cron::CronJobState;
use zeptoclaw::cron::CronPayload;
use zeptoclaw::cron::CronSchedule;
use zeptoclaw::cron::OnMiss;
use zeptoclaw::cron::DEDUP_WINDOW_MS;
use zeptoclaw::cron::DEFAULT_DISPATCH_TIMEOUT_MS;

fn job(id: &str, name: &str, every_ms: i64, last_run: Option<i64>, status: Option<&str>) -> CronJob {
    CronJob {
        id: id.to_string(),
        name: name.to_string(),
        enabled: true,
        schedule: CronSchedule::Every { every_ms },
        payload: CronPayload {
            message: "x".to_string(),
            channel: "cli".to_string(),
            chat_id: "cli".to_string(),
        },
        state: CronJobState {
            last_run_at_ms: last_run,
            last_status: status.map(|s| s.to_string()),
            ..Default::default()
        },
        created_at_ms: 0,
        updated_at_ms: 0,
        delete_after_run: false,
        timeout_secs: None,
    }
}

#[test]
fn test_next_run_at_every() {
    let now = 1_000;
    let next = next_run_at(&CronSchedule::Every { every_ms: 500 }, now).unwrap();
    assert_eq!(next, 1_500);
}

#[test]
fn test_on_miss_default_is_skip() {
    let policy = OnMiss::default();
    assert_eq!(policy, OnMiss::Skip);
}

#[test]
fn test_error_backoff_schedule() {
    assert_eq!(error_backoff_ms(0), 0);
    assert_eq!(error_backoff_ms(1), 30_000);
    assert_eq!(error_backoff_ms(2), 60_000);
    assert_eq!(error_backoff_ms(3), 300_000);
    assert_eq!(error_backoff_ms(10), 3_600_000);
}

#[test]
fn test_dedup_window_constant() {
    assert_eq!(DEDUP_WINDOW_MS, 60_000, "dedup window should be 60 seconds");
}

#[test]
fn test_dispatch_timeout_ms_default() {
    assert_eq!(dispatch_timeout_ms(None), DEFAULT_DISPATCH_TIMEOUT_MS);
}

#[test]
fn test_dispatch_timeout_ms_saturates_on_large_value() {
    assert_eq!(dispatch_timeout_ms(Some(u64::MAX)), u64::MAX);
}

#[test]
fn test_should_skip_missed_dispatch_requires_last_run_after_next() {
    let j = job("dedup3", "fast schedule", 30_000, Some(70_000), Some("ok"));
    assert!(
        !should_skip_missed_dispatch(&j, 100_000),
        "dedup guard should not skip when last_run is before next_run"
    );
}

#[test]
fn test_should_skip_missed_dispatch_near_next_with_success() {
    let j = job("dedup4", "near next", 60_000, Some(100_010), Some("ok"));
    assert!(should_skip_missed_dispatch(&j, 100_000));
}

#[test]
fn test_should_skip_missed_dispatch_no_last_run() {
    let j = job("d5", "never ran", 60_000, None, None);
    assert!(!should_skip_missed_dispatch(&j, 100_000), "should not skip when job has never run");
}

#[test]
fn test_should_skip_missed_dispatch_last_run_errored() {
    let j = job("d6", "errored run", 60_000, Some(100_010), Some("error"));
    assert!(
        !should_skip_missed_dispatch(&j, 100_000),
        "should not skip when last run was an error"
    );
}

#[test]
fn test_should_skip_missed_dispatch_outside_window() {
    let j = job("d7", "old run", 60_000, Some(100_000 + 120_000), Some("ok"));
    assert!(
        !should_skip_missed_dispatch(&j, 100_000),
        "should not skip when last_run is outside the dedup window"
    );
}

#[test]
fn test_dispatch_timeout_ms_normal_value() {
    assert_eq!(dispatch_timeout_ms(Some(10)), 10_000);
    assert_eq!(dispatch_timeout_ms(Some(1)), 1_000);
    assert_eq!(dispatch_timeout_ms(Some(0)), 0);
}
