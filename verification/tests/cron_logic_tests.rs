use zeptoclaw::cron::apply_dispatch_outcome;
use zeptoclaw::cron::datetime_ms_from_readings;
use zeptoclaw::cron::due_job_indices;
use zeptoclaw::cron::fresh_job_id;
use zeptoclaw::cron::job_id_of;
use zeptoclaw::cron::is_valid_cron_expr;
use zeptoclaw::cron::is_valid_cron_expr_at;
use zeptoclaw::cron::list_jobs;
use zeptoclaw::cron::new_job;
use zeptoclaw::cron::next_run_at;
use zeptoclaw::cron::next_run_from_cron_expr;
use zeptoclaw::cron::parse_at_datetime_ms;
use zeptoclaw::cron::parse_cron_field;
use zeptoclaw::cron::remove_finished_one_shots;
use zeptoclaw::cron::remove_job_by_id;
use zeptoclaw::cron::reschedule_on_start;
use zeptoclaw::cron::schedule_in_range;
use zeptoclaw::cron::start_with_store;
use zeptoclaw::cron::CronStore;
use zeptoclaw::cron::status_is_ok;
use zeptoclaw::cron::CronJob;
use zeptoclaw::cron::CronJobState;
use zeptoclaw::cron::CronPayload;
use zeptoclaw::cron::CronSchedule;
use zeptoclaw::cron::DispatchOutcome;
use zeptoclaw::cron::OnMiss;
use zeptoclaw::error::ZeptoError;

/// 2026-02-12T12:34:56Z, a Thursday.
const NOW: i64 = 1_770_899_696_000;

fn payload() -> CronPayload {
    CronPayload {
        message: "ping".to_string(),
        channel: "telegram".to_string(),
        chat_id: "42".to_string(),
    }
}

fn job_with(id: &str, schedule: CronSchedule, next: Option<i64>) -> CronJob {
    CronJob {
        id: id.to_string(),
        name: id.to_string(),
        enabled: true,
        schedule,
        payload: payload(),
        state: CronJobState {
            next_run_at_ms: next,
            ..Default::default()
        },
        created_at_ms: 0,
        updated_at_ms: 0,
        delete_after_run: false,
        timeout_secs: None,
    }
}

#[test]
fn test_parse_at_datetime_ms_rfc3339() {
    let ms = parse_at_datetime_ms("2026-02-12T12:34:56Z").unwrap();
    assert!(ms > 0);
}

#[test]
fn test_parse_at_datetime_ms_values() {
    assert_eq!(parse_at_datetime_ms("2026-02-12T12:34:56Z").unwrap(), NOW);
    assert_eq!(parse_at_datetime_ms("2026-02-12T12:34:56").unwrap(), NOW);
    assert_eq!(parse_at_datetime_ms("2026-02-12T14:34:56+02:00").unwrap(), NOW);
    match parse_at_datetime_ms("tomorrow") {
        Err(ZeptoError::Tool(m)) => {
            assert_eq!(m, "Invalid 'at' datetime 'tomorrow'. Use RFC3339 or YYYY-MM-DDTHH:MM:SS")
        }
        _ => panic!("expected a tool error"),
    }
}

#[test]
fn test_datetime_ms_from_readings_prefers_rfc3339() {
    assert_eq!(datetime_ms_from_readings("x", Some(1), Some(2)).unwrap(), 1);
    assert_eq!(datetime_ms_from_readings("x", None, Some(2)).unwrap(), 2);
    assert!(datetime_ms_from_readings("x", None, None).is_err());
}

#[test]
fn test_parse_cron_field_forms() {
    assert_eq!(parse_cron_field("*", 0, 6), Some(vec![0, 1, 2, 3, 4, 5, 6]));
    assert_eq!(parse_cron_field("*/15", 0, 59), Some(vec![0, 15, 30, 45]));
    assert_eq!(parse_cron_field("1,3,5", 0, 6), Some(vec![1, 3, 5]));
    assert_eq!(parse_cron_field("7", 0, 6), None);
    assert_eq!(parse_cron_field("*/0", 0, 59), None);
    assert_eq!(parse_cron_field("", 0, 59), None);
    assert_eq!(parse_cron_field("a", 0, 59), None);
}

#[test]
fn test_next_run_from_cron_expr_daily() {
    // Next 09:00 UTC after Thursday 12:34:56 is Friday 09:00.
    assert_eq!(next_run_from_cron_expr("0 9 * * *", NOW), Some(1_770_973_200_000));
}

#[test]
fn test_next_run_from_cron_expr_every_quarter_hour() {
    assert_eq!(next_run_from_cron_expr("*/15 * * * *", NOW), Some(1_770_900_300_000));
    assert_eq!(next_run_from_cron_expr("* * * * *", NOW), Some(1_770_899_700_000));
}

#[test]
fn test_next_run_from_cron_expr_weekday() {
    // Monday (1) 09:00 after Thursday.
    assert_eq!(next_run_from_cron_expr("0 9 * * 1", NOW), Some(1_771_232_400_000));
}

#[test]
fn test_next_run_from_cron_expr_rejects_bad_expressions() {
    assert_eq!(next_run_from_cron_expr("0 9 * *", NOW), None);
    assert_eq!(next_run_from_cron_expr("61 * * * *", NOW), None);
    assert_eq!(next_run_from_cron_expr("0 0 31 2 *", NOW), None);
    assert!(!is_valid_cron_expr_at("0 0 31 2 *", NOW));
    assert!(is_valid_cron_expr_at("0 9 * * *", NOW));
    assert!(!is_valid_cron_expr("not a cron"));
    assert!(is_valid_cron_expr("*/5 * * * *"));
}

#[test]
fn test_next_run_at_schedules() {
    assert_eq!(next_run_at(&CronSchedule::At { at_ms: NOW + 5 }, NOW), Some(NOW + 5));
    assert_eq!(next_run_at(&CronSchedule::At { at_ms: NOW }, NOW), None);
    assert_eq!(next_run_at(&CronSchedule::Every { every_ms: 0 }, NOW), None);
    assert_eq!(
        next_run_at(&CronSchedule::Cron { expr: "0 9 * * *".to_string() }, NOW),
        Some(1_770_973_200_000)
    );
}

#[test]
fn test_status_is_ok() {
    assert!(status_is_ok(&Some("ok".to_string())));
    assert!(!status_is_ok(&Some("error".to_string())));
    assert!(!status_is_ok(&Some("OK".to_string())));
    assert!(!status_is_ok(&None));
}

#[test]
fn test_due_job_indices() {
    let mut disabled = job_with("c", CronSchedule::Every { every_ms: 1000 }, Some(NOW - 1));
    disabled.enabled = false;
    let jobs = vec![
        job_with("a", CronSchedule::Every { every_ms: 1000 }, Some(NOW)),
        job_with("b", CronSchedule::Every { every_ms: 1000 }, Some(NOW + 1)),
        disabled,
        job_with("d", CronSchedule::Every { every_ms: 1000 }, None),
        job_with("e", CronSchedule::At { at_ms: 5 }, Some(5)),
    ];
    assert_eq!(due_job_indices(&jobs, NOW), vec![0, 4]);
}

#[test]
fn test_dispatch_success_reschedules_and_resets_errors() {
    let mut j = job_with("a", CronSchedule::Every { every_ms: 60_000 }, Some(NOW));
    j.state.consecutive_errors = 3;
    let mut jobs = vec![j];
    apply_dispatch_outcome(
        &mut jobs,
        DispatchOutcome {
            job_id: "a".to_string(),
            ok: true,
            error: None,
            started_at_ms: NOW,
            ended_at_ms: NOW + 250,
        },
    );
    let s = &jobs[0].state;
    assert_eq!(s.last_run_at_ms, Some(NOW));
    assert_eq!(s.last_duration_ms, Some(250));
    assert_eq!(s.last_status.as_deref(), Some("ok"));
    assert_eq!(s.consecutive_errors, 0);
    assert_eq!(s.next_run_at_ms, Some(NOW + 250 + 60_000));
    assert_eq!(jobs[0].updated_at_ms, NOW + 250);
}

#[test]
fn test_failed_dispatch_applies_error_backoff() {
    // A failed dispatch of a frequent job waits at least the backoff.
    let mut jobs = vec![job_with("a", CronSchedule::Every { every_ms: 1_000 }, Some(NOW))];
    apply_dispatch_outcome(
        &mut jobs,
        DispatchOutcome {
            job_id: "a".to_string(),
            ok: false,
            error: Some("cron dispatch timed out".to_string()),
            started_at_ms: NOW,
            ended_at_ms: NOW + 10,
        },
    );
    let s = &jobs[0].state;
    assert_eq!(s.last_status.as_deref(), Some("error"));
    assert_eq!(s.last_error.as_deref(), Some("cron dispatch timed out"));
    assert_eq!(s.consecutive_errors, 1);
    assert_eq!(s.next_run_at_ms, Some(NOW + 10 + 30_000));
}

#[test]
fn test_dispatch_failure_keeps_later_schedule() {
    // The next regular run is later than the backoff: it is kept.
    let mut jobs = vec![job_with("a", CronSchedule::Every { every_ms: 3_600_000 }, Some(NOW))];
    apply_dispatch_outcome(
        &mut jobs,
        DispatchOutcome { job_id: "a".to_string(), ok: false, error: None, started_at_ms: NOW, ended_at_ms: NOW },
    );
    assert_eq!(jobs[0].state.next_run_at_ms, Some(NOW + 3_600_000));
}

#[test]
fn test_succeeded_one_shot_is_removed() {
    let mut j = job_with("once", CronSchedule::At { at_ms: NOW }, Some(NOW));
    j.delete_after_run = true;
    let mut jobs = vec![j, job_with("keep", CronSchedule::Every { every_ms: 1000 }, Some(NOW + 1000))];
    apply_dispatch_outcome(
        &mut jobs,
        DispatchOutcome { job_id: "once".to_string(), ok: true, error: None, started_at_ms: NOW, ended_at_ms: NOW },
    );
    assert!(!jobs[0].enabled);
    assert_eq!(jobs[0].state.next_run_at_ms, None);
    remove_finished_one_shots(&mut jobs);
    assert_eq!(jobs.len(), 1);
    assert_eq!(jobs[0].id, "keep");
}

#[test]
fn test_failed_one_shot_is_kept() {
    let mut j = job_with("once", CronSchedule::At { at_ms: NOW }, Some(NOW));
    j.delete_after_run = true;
    let mut jobs = vec![j];
    apply_dispatch_outcome(
        &mut jobs,
        DispatchOutcome { job_id: "once".to_string(), ok: false, error: None, started_at_ms: NOW, ended_at_ms: NOW },
    );
    remove_finished_one_shots(&mut jobs);
    assert_eq!(jobs.len(), 1);
    assert!(!jobs[0].enabled);
}

#[test]
fn test_dispatch_outcome_for_unknown_job_changes_nothing() {
    let mut jobs = vec![job_with("a", CronSchedule::Every { every_ms: 1000 }, Some(NOW))];
    apply_dispatch_outcome(
        &mut jobs,
        DispatchOutcome { job_id: "zzz".to_string(), ok: true, error: None, started_at_ms: NOW, ended_at_ms: NOW },
    );
    assert_eq!(jobs[0].state.last_run_at_ms, None);
    assert_eq!(jobs[0].state.next_run_at_ms, Some(NOW));
}

#[test]
fn test_reschedule_skip_policy() {
    let mut jobs = vec![
        job_with("missed", CronSchedule::Every { every_ms: 60_000 }, Some(NOW - 1)),
        job_with("future", CronSchedule::Every { every_ms: 60_000 }, Some(NOW + 5)),
        job_with("unscheduled", CronSchedule::Every { every_ms: 60_000 }, None),
    ];
    let missed = reschedule_on_start(&mut jobs, NOW, OnMiss::Skip);
    assert!(missed.is_empty());
    assert_eq!(jobs[0].state.next_run_at_ms, Some(NOW + 60_000));
    assert_eq!(jobs[1].state.next_run_at_ms, Some(NOW + 5));
    assert_eq!(jobs[2].state.next_run_at_ms, Some(NOW + 60_000));
}

#[test]
fn test_reschedule_run_once_policy() {
    let mut jobs = vec![
        job_with("missed", CronSchedule::Every { every_ms: 60_000 }, Some(NOW - 1)),
        job_with("future", CronSchedule::Every { every_ms: 60_000 }, Some(NOW + 5)),
    ];
    let missed = reschedule_on_start(&mut jobs, NOW, OnMiss::RunOnce);
    assert_eq!(missed, vec![0]);
    assert_eq!(jobs[0].state.next_run_at_ms, Some(NOW + 60_000));
}

#[test]
fn test_reschedule_skips_already_dispatched_run() {
    let mut j = job_with("a", CronSchedule::Every { every_ms: 60_000 }, Some(NOW - 10_000));
    j.state.last_run_at_ms = Some(NOW - 9_000);
    j.state.last_status = Some("ok".to_string());
    let mut jobs = vec![j];
    let missed = reschedule_on_start(&mut jobs, NOW, OnMiss::RunOnce);
    assert!(missed.is_empty());
}

#[test]
fn test_reschedule_reruns_failed_run() {
    let mut j = job_with("a", CronSchedule::Every { every_ms: 60_000 }, Some(NOW - 10_000));
    j.state.last_run_at_ms = Some(NOW - 9_000);
    j.state.last_status = Some("error".to_string());
    let mut jobs = vec![j];
    let missed = reschedule_on_start(&mut jobs, NOW, OnMiss::RunOnce);
    assert_eq!(missed, vec![0]);
}

#[test]
fn test_remove_job_by_id() {
    let mut jobs = vec![
        job_with("a", CronSchedule::Every { every_ms: 1000 }, None),
        job_with("b", CronSchedule::Every { every_ms: 1000 }, None),
    ];
    assert!(remove_job_by_id(&mut jobs, "a"));
    assert_eq!(jobs.len(), 1);
    assert_eq!(jobs[0].id, "b");
    assert!(!remove_job_by_id(&mut jobs, "a"));
    assert_eq!(jobs.len(), 1);
}

#[test]
fn test_list_jobs_orders_by_next_run() {
    let mut off = job_with("off", CronSchedule::Every { every_ms: 1000 }, Some(1));
    off.enabled = false;
    let jobs = vec![
        job_with("late", CronSchedule::Every { every_ms: 1000 }, Some(300)),
        job_with("none", CronSchedule::Every { every_ms: 1000 }, None),
        off,
        job_with("early", CronSchedule::Every { every_ms: 1000 }, Some(100)),
        job_with("late2", CronSchedule::Every { every_ms: 1000 }, Some(300)),
    ];
    let ids: Vec<String> = list_jobs(&jobs, false).into_iter().map(|j| j.id).collect();
    assert_eq!(ids, vec!["early", "late", "late2", "none"]);
    let all: Vec<String> = list_jobs(&jobs, true).into_iter().map(|j| j.id).collect();
    assert_eq!(all, vec!["off", "early", "late", "late2", "none"]);
}

#[test]
fn test_new_job_is_enabled_and_scheduled() {
    let j = new_job(
        "abcd1234".to_string(),
        "daily".to_string(),
        CronSchedule::Every { every_ms: 1000 },
        payload(),
        false,
        Some(30),
        NOW,
    );
    assert!(j.enabled);
    assert_eq!(j.state.next_run_at_ms, Some(NOW + 1000));
    assert_eq!(j.created_at_ms, NOW);
    assert_eq!(j.updated_at_ms, NOW);
    assert_eq!(j.timeout_secs, Some(30));
    assert_eq!(j.state.consecutive_errors, 0);
}

#[test]
fn test_fresh_job_id_has_eight_characters() {
    let a = fresh_job_id();
    let b = fresh_job_id();
    assert_eq!(a.chars().count(), 8);
    assert!(a.chars().all(|c| c.is_ascii_digit() || ('a'..='f').contains(&c)));
    assert_ne!(a, b);
}

#[test]
fn test_job_id_of_takes_first_eight_characters() {
    assert_eq!(job_id_of("550e8400-e29b-41d4-a716-446655440000"), "550e8400");
    assert_eq!(job_id_of("abcdefgh"), "abcdefgh");
}

#[test]
fn test_schedule_in_range() {
    assert!(schedule_in_range(&CronSchedule::Every { every_ms: 1000 }, NOW));
    assert!(!schedule_in_range(&CronSchedule::Every { every_ms: i64::MAX }, NOW));
    assert!(schedule_in_range(&CronSchedule::Every { every_ms: -5 }, i64::MAX));
    assert!(schedule_in_range(&CronSchedule::At { at_ms: 0 }, i64::MAX));
    assert!(!schedule_in_range(&CronSchedule::Cron { expr: "* * * * *".to_string() }, i64::MAX));
}

#[test]
fn test_start_with_store_failed_load_leaves_not_running() {
    let mut running = true;
    let r = start_with_store(
        &mut running,
        Err(ZeptoError::Config("bad store".to_string())),
        NOW,
        OnMiss::RunOnce,
    );
    assert!(!running);
    match r {
        Err(ZeptoError::Config(m)) => assert_eq!(m, "bad store"),
        _ => panic!("expected the load error"),
    }

    let mut running = true;
    let store = CronStore {
        version: 1,
        jobs: vec![job_with("a", CronSchedule::Every { every_ms: i64::MAX }, Some(NOW - 1))],
    };
    let r = start_with_store(&mut running, Ok(store), NOW, OnMiss::RunOnce);
    assert!(!running);
    assert!(matches!(r, Err(ZeptoError::Config(_))));
}

#[test]
fn test_start_with_store_reschedules_missed_jobs() {
    let mut running = false;
    let mut off = job_with("off", CronSchedule::Every { every_ms: 60_000 }, Some(NOW - 5_000));
    off.enabled = false;
    let store = CronStore {
        version: 1,
        jobs: vec![
            job_with("a", CronSchedule::Every { every_ms: 60_000 }, Some(NOW - 10_000)),
            off,
            job_with("later", CronSchedule::Every { every_ms: 60_000 }, Some(NOW + 5_000)),
        ],
    };
    let (started, missed) = start_with_store(&mut running, Ok(store), NOW, OnMiss::RunOnce).unwrap();
    assert!(running);
    assert_eq!(missed, vec![0]);
    assert_eq!(started.jobs[0].state.next_run_at_ms, Some(NOW + 60_000));
    assert_eq!(started.jobs[1].state.next_run_at_ms, Some(NOW - 5_000));
    assert_eq!(started.jobs[2].state.next_run_at_ms, Some(NOW + 5_000));

    let mut running = false;
    let store = CronStore {
        version: 1,
        jobs: vec![job_with("a", CronSchedule::Every { every_ms: 60_000 }, Some(NOW - 10_000))],
    };
    let (_, missed) = start_with_store(&mut running, Ok(store), NOW, OnMiss::Skip).unwrap();
    assert!(running);
    assert!(missed.is_empty());
}

#[test]
fn test_cron_day_and_month_follow_the_calendar() {
    // No 31st of April or of February, ever.
    assert_eq!(next_run_from_cron_expr("0 0 31 4 *", NOW), None);
    assert_eq!(next_run_from_cron_expr("0 0 30 2 *", NOW), None);
    // 2026-03-01T00:00:00Z.
    assert_eq!(next_run_from_cron_expr("0 0 1 3 *", NOW), Some(1_772_323_200_000));
    // 2026-12-31T23:59:00Z.
    assert_eq!(next_run_from_cron_expr("59 23 31 12 *", NOW), Some(1_798_761_540_000));
}
