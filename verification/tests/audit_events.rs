use meriadoc::audit::{build_event, build_event_at, build_event_from_reading, ndjson_line, rfc3339_since_epoch, AuditAction, AuditOutcome, CallerKind, MERIADOC_VERSION};
use std::collections::BTreeMap;

#[test]
fn test_build_event_populates_fields() {
    let event = build_event(
        CallerKind::McpStdio,
        AuditAction::TaskBlocked,
        "deploy",
        None,
        "myapp",
        "/home/user/myapp",
        "critical",
        None,
        None,
        vec!["ENV".to_string()],
        BTreeMap::new(),
        AuditOutcome::Blocked,
        1234,
    ).unwrap();

    assert_eq!(event.task, "deploy");
    assert_eq!(event.job, None);
    assert_eq!(event.project, "myapp");
    assert_eq!(event.risk_level, "critical");
    assert_eq!(event.exit_code, None);
    assert_eq!(event.duration_ms, None);
    assert_eq!(event.env_override_keys, vec!["ENV".to_string()]);
    assert!(event.logged_env.is_empty());
    assert_eq!(event.schema_version, "1");
}

#[test]
fn test_build_event_populates_job_and_logged_env() {
    let mut logged_env = BTreeMap::new();
    logged_env.insert("QUERY".to_string(), "invoice deadline".to_string());

    let event = build_event(
        CallerKind::Cli,
        AuditAction::TaskRun,
        "ci-deploy-prod",
        Some("deploy-production"),
        "myapp",
        "/home/user/myapp",
        "high",
        Some(0),
        Some(42),
        vec!["QUERY".to_string()],
        logged_env,
        AuditOutcome::Success,
        1234,
    ).unwrap();

    assert_eq!(event.job, Some("deploy-production".to_string()));
    assert_eq!(
        event.logged_env.get("QUERY"),
        Some(&"invoice deadline".to_string())
    );
}

#[test]
fn event_records_version_pid_and_utc_timestamp() {
    let event = build_event(
        CallerKind::Api,
        AuditAction::TaskDryRun,
        "build",
        None,
        "demo",
        "/tmp/demo",
        "low",
        None,
        None,
        vec![],
        BTreeMap::new(),
        AuditOutcome::DryRun,
        4242,
    ).unwrap();
    assert_eq!(event.meriadoc_version, MERIADOC_VERSION);
    assert_eq!(event.meriadoc_version, "0.2.1");
    assert_eq!(event.pid, 4242);
    assert_eq!(event.project_root, "/tmp/demo");
    assert_eq!(event.caller, CallerKind::Api);
    assert_eq!(event.action, AuditAction::TaskDryRun);
    assert_eq!(event.outcome, AuditOutcome::DryRun);
    assert!(event.timestamp.ends_with('Z'));
    assert_eq!(event.timestamp.len(), 24);
    assert_eq!(&event.timestamp[10..11], "T");
    assert_eq!(&event.timestamp[19..20], ".");
    assert!(event.timestamp.as_str() >= "2020-01-01T00:00:00.000Z");
}

#[test]
fn ndjson_line_appends_one_newline() {
    assert_eq!(ndjson_line("{\"a\":1}".to_string()), "{\"a\":1}\n");
    assert_eq!(ndjson_line(String::new()), "\n");
}

#[test]
fn blocked_and_dry_run_events_carry_no_exit_code_or_duration() {
    for action in [AuditAction::TaskBlocked, AuditAction::TaskDryRun] {
        let event = build_event(
            CallerKind::Cli,
            action,
            "deploy",
            None,
            "myapp",
            "/home/user/myapp",
            "critical",
            Some(0),
            Some(7),
            vec![],
            BTreeMap::new(),
            AuditOutcome::Blocked,
            1,
        ).unwrap();
        assert_eq!(event.exit_code, None);
        assert_eq!(event.duration_ms, None);
    }
    let run = build_event(
        CallerKind::Cli,
        AuditAction::TaskRun,
        "deploy",
        None,
        "myapp",
        "/home/user/myapp",
        "low",
        Some(3),
        Some(7),
        vec![],
        BTreeMap::new(),
        AuditOutcome::Failure,
        1,
    ).unwrap();
    assert_eq!(run.exit_code, Some(3));
    assert_eq!(run.duration_ms, Some(7));
}

#[test]
fn build_event_at_keeps_the_given_timestamp() {
    let event = build_event_at(
        "2026-06-02T14:30:00.123Z".to_string(),
        CallerKind::McpHttp,
        AuditAction::TaskRun,
        "deploy-staging",
        Some("release"),
        "myapp",
        "/home/user/projects/myapp",
        "high",
        Some(0),
        Some(1423),
        vec!["ENV".to_string()],
        BTreeMap::new(),
        AuditOutcome::Success,
        12345,
    );
    assert_eq!(event.timestamp, "2026-06-02T14:30:00.123Z");
    assert_eq!(event.job, Some("release".to_string()));
    assert_eq!(event.exit_code, Some(0));
    assert_eq!(event.duration_ms, Some(1423));
    assert_eq!(event.pid, 12345);
    assert_eq!(event.schema_version, "1");
}

#[test]
fn rfc3339_since_epoch_renders_the_reading() {
    assert_eq!(rfc3339_since_epoch(Some((0, 0))), Some("1970-01-01T00:00:00.000Z".to_string()));
    assert_eq!(
        rfc3339_since_epoch(Some((1780410600, 123_456_789))),
        Some("2026-06-02T14:30:00.123Z".to_string())
    );
    assert_eq!(rfc3339_since_epoch(None), None);
    assert_eq!(rfc3339_since_epoch(Some((u64::MAX, 0))), None);
}

#[test]
fn build_event_from_reading_stamps_the_reading() {
    let event = build_event_from_reading(
        Some((1780410600, 123_000_000)),
        CallerKind::Cli,
        AuditAction::TaskRun,
        "deploy-staging",
        None,
        "myapp",
        "/home/user/projects/myapp",
        "low",
        Some(0),
        Some(1423),
        vec!["ENV".to_string()],
        BTreeMap::new(),
        AuditOutcome::Success,
        12345,
    )
    .unwrap();
    assert_eq!(event.timestamp, "2026-06-02T14:30:00.123Z");
    assert_eq!(event.duration_ms, Some(1423));
    let none = build_event_from_reading(
        None,
        CallerKind::Cli,
        AuditAction::TaskRun,
        "deploy-staging",
        None,
        "myapp",
        "/home/user/projects/myapp",
        "low",
        None,
        None,
        vec![],
        BTreeMap::new(),
        AuditOutcome::Success,
        1,
    );
    assert!(none.is_none());
}
