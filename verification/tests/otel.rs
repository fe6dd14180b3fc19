//! Tests for the export adapter: configuration, routing and lifecycle.

use git_ai::events::{
    FieldValue, MetricEvent, SparseRecord, ATTR_MODEL, ATTR_REPO_URL, CHECKPOINT_LINES_ADDED,
    CHECKPOINT_LINES_DELETED, COMMITTED_AI_ACCEPTED, COMMITTED_AI_ADDITIONS,
    COMMITTED_GIT_DIFF_ADDED_LINES, COMMITTED_GIT_DIFF_DELETED_LINES, COMMITTED_HUMAN_ADDITIONS,
    EVENT_AGENT_USAGE, EVENT_CHECKPOINT, EVENT_COMMITTED, EVENT_INSTALL_HOOKS,
};
use git_ai::otel::{
    default_otel_endpoint, ensure_otel_initialized, export_metric_event, exporter_plan,
    init_otel, instrument_catalog, parse_u64, shutdown_otel, Instrument, OtelConfig, OtelHandle,
    OtelProtocol, OtelStatus, DEFAULT_EXPORT_INTERVAL_SECS,
};

fn active_handle() -> OtelHandle {
    OtelHandle { status: OtelStatus::Active }
}

fn record(fields: Vec<(u64, FieldValue)>) -> SparseRecord {
    let mut rec = SparseRecord::new();
    for (pos, value) in fields {
        rec.push(pos, value);
    }
    rec
}

#[test]
fn otel_test_otel_config_default() {
    let config = OtelConfig::default();
    assert_eq!(config.endpoint, default_otel_endpoint());
    assert!(!config.enabled);
    assert_eq!(config.export_interval_secs, DEFAULT_EXPORT_INTERVAL_SECS);
}

#[test]
fn test_otel_config_default() {
    let config = OtelConfig::default();
    assert_eq!(config.endpoint, default_otel_endpoint());
    assert!(!config.enabled);
    assert!(config.auth_header.is_none());
    assert_eq!(config.protocol, OtelProtocol::Grpc);
}

#[test]
fn test_config_from_env_values() {
    let config = OtelConfig::from_env_values(
        Some(String::from("TRUE")),
        Some(String::from("https://otlp.example.net/otlp")),
        Some(String::from("120")),
        Some(String::from("Basic SECRET-REDACTED")),
        Some(String::from("HTTP")),
    );
    assert!(config.enabled);
    assert_eq!(config.endpoint, "https://otlp.example.net/otlp");
    assert_eq!(config.export_interval_secs, 120);
    assert_eq!(config.auth_header.as_deref(), Some("Basic SECRET-REDACTED"));
    assert_eq!(config.protocol, OtelProtocol::Http);
}

#[test]
fn test_config_from_env_values_defaults() {
    let config = OtelConfig::from_env_values(None, None, None, None, None);
    assert!(!config.enabled);
    assert_eq!(config.endpoint, default_otel_endpoint());
    assert_eq!(config.export_interval_secs, DEFAULT_EXPORT_INTERVAL_SECS);
    assert!(config.auth_header.is_none());
    assert_eq!(config.protocol, OtelProtocol::Grpc);
}

#[test]
fn test_config_from_env_values_fallbacks() {
    // `yes` is not a truthy spelling, an unparsable interval falls back to
    // the default, an empty authorization header counts as none, and an
    // unknown protocol means gRPC
    let config = OtelConfig::from_env_values(
        Some(String::from("yes")),
        None,
        Some(String::from("soon")),
        Some(String::from("")),
        Some(String::from("grpc")),
    );
    assert!(!config.enabled);
    assert_eq!(config.export_interval_secs, DEFAULT_EXPORT_INTERVAL_SECS);
    assert!(config.auth_header.is_none());
    assert_eq!(config.protocol, OtelProtocol::Grpc);
}

#[test]
fn test_config_enabled_by_one() {
    let config = OtelConfig::from_env_values(Some(String::from("1")), None, None, None, None);
    assert!(config.enabled);
}

#[test]
fn test_parse_u64_exact() {
    assert_eq!(parse_u64("0"), Some(0));
    assert_eq!(parse_u64("123"), Some(123));
    assert_eq!(parse_u64("+42"), Some(42));
    assert_eq!(parse_u64("18446744073709551615"), Some(u64::MAX));
    assert_eq!(parse_u64("18446744073709551616"), None);
    assert_eq!(parse_u64(""), None);
    assert_eq!(parse_u64("+"), None);
    assert_eq!(parse_u64("12x"), None);
    assert_eq!(parse_u64(" 5"), None);
    assert_eq!(parse_u64("-5"), None);
}

#[test]
fn test_committed_event_plan() {
    let event = MetricEvent {
        event_id: EVENT_COMMITTED,
        attrs: record(vec![
            (ATTR_REPO_URL, FieldValue::Text(String::from("https://example.net/repo.git"))),
            (ATTR_MODEL, FieldValue::Text(String::from("model-x"))),
        ]),
        values: record(vec![
            (COMMITTED_HUMAN_ADDITIONS, FieldValue::Count(7)),
            (COMMITTED_GIT_DIFF_ADDED_LINES, FieldValue::Count(20)),
            (COMMITTED_GIT_DIFF_DELETED_LINES, FieldValue::Count(5)),
            (COMMITTED_AI_ADDITIONS, FieldValue::CountList(vec![3, 4])),
            (COMMITTED_AI_ACCEPTED, FieldValue::CountList(vec![0])),
        ]),
    };
    let plan = export_metric_event(&active_handle(), &event);
    let got: Vec<(Instrument, u64)> =
        plan.updates.iter().map(|u| (u.instrument, u.amount)).collect();
    assert_eq!(
        got,
        vec![
            (Instrument::CommittedHumanAdditions, 7),
            (Instrument::CommittedDiffAdded, 20),
            (Instrument::CommittedDiffDeleted, 5),
            (Instrument::CommittedAiAdditions, 7),
        ]
    );
    assert_eq!(plan.attrs.len(), 2);
    assert_eq!(plan.attrs[0].name, "repo_url");
    assert_eq!(plan.attrs[0].value, "https://example.net/repo.git");
    assert_eq!(plan.attrs[1].name, "model");
    assert_eq!(plan.attrs[1].value, "model-x");
}

#[test]
fn test_committed_ai_total_saturates() {
    let event = MetricEvent {
        event_id: EVENT_COMMITTED,
        attrs: SparseRecord::new(),
        values: record(vec![(
            COMMITTED_AI_ADDITIONS,
            FieldValue::CountList(vec![u64::MAX, 5]),
        )]),
    };
    let plan = export_metric_event(&active_handle(), &event);
    assert_eq!(plan.updates.len(), 1);
    assert_eq!(plan.updates[0].instrument, Instrument::CommittedAiAdditions);
    assert_eq!(plan.updates[0].amount, u64::MAX);
}

#[test]
fn test_checkpoint_event_plan() {
    let event = MetricEvent {
        event_id: EVENT_CHECKPOINT,
        attrs: SparseRecord::new(),
        values: record(vec![
            (CHECKPOINT_LINES_ADDED, FieldValue::Count(14)),
            (CHECKPOINT_LINES_DELETED, FieldValue::Count(2)),
        ]),
    };
    let plan = export_metric_event(&active_handle(), &event);
    let got: Vec<(Instrument, u64)> =
        plan.updates.iter().map(|u| (u.instrument, u.amount)).collect();
    assert_eq!(
        got,
        vec![
            (Instrument::CheckpointCount, 1),
            (Instrument::CheckpointLinesAdded, 14),
            (Instrument::CheckpointLinesDeleted, 2),
        ]
    );
    assert!(Instrument::CheckpointLinesAdded.is_histogram());
    assert!(!Instrument::CheckpointCount.is_histogram());
}

#[test]
fn test_agent_usage_event_plan() {
    let event = MetricEvent {
        event_id: EVENT_AGENT_USAGE,
        attrs: SparseRecord::new(),
        values: SparseRecord::new(),
    };
    let plan = export_metric_event(&active_handle(), &event);
    assert_eq!(plan.updates.len(), 1);
    assert_eq!(plan.updates[0].instrument, Instrument::AgentUsageCount);
    assert_eq!(plan.updates[0].amount, 1);
}

#[test]
fn test_install_hooks_not_exported() {
    let event = MetricEvent {
        event_id: EVENT_INSTALL_HOOKS,
        attrs: record(vec![(ATTR_REPO_URL, FieldValue::Text(String::from("r")))]),
        values: SparseRecord::new(),
    };
    let plan = export_metric_event(&active_handle(), &event);
    assert!(plan.updates.is_empty());
}

#[test]
fn test_unknown_event_skipped() {
    let event = MetricEvent {
        event_id: 99,
        attrs: SparseRecord::new(),
        values: SparseRecord::new(),
    };
    let plan = export_metric_event(&active_handle(), &event);
    assert!(plan.updates.is_empty());
}

#[test]
fn test_inactive_handle_exports_nothing() {
    let event = MetricEvent {
        event_id: EVENT_AGENT_USAGE,
        attrs: SparseRecord::new(),
        values: SparseRecord::new(),
    };
    let handle = OtelHandle::new();
    let plan = export_metric_event(&handle, &event);
    assert!(plan.updates.is_empty());
    assert!(plan.attrs.is_empty());
}

#[test]
fn test_lifecycle() {
    let mut handle = OtelHandle::new();
    let disabled = OtelConfig::default();
    assert!(!init_otel(&mut handle, &disabled, true));
    assert_eq!(handle.status, OtelStatus::Disabled);

    let mut handle = OtelHandle::new();
    let mut enabled = OtelConfig::default();
    enabled.enabled = true;
    assert!(init_otel(&mut handle, &enabled, true));
    assert_eq!(handle.status, OtelStatus::Active);
    // initialization happens once; a second call reports the standing state
    assert!(init_otel(&mut handle, &enabled, false));
    assert!(ensure_otel_initialized(&mut handle, &enabled, false));

    shutdown_otel(&mut handle);
    assert_eq!(handle.status, OtelStatus::ShutDown);
    assert!(!init_otel(&mut handle, &enabled, true));

    let mut handle = OtelHandle::new();
    assert!(!init_otel(&mut handle, &enabled, false));
    assert_eq!(handle.status, OtelStatus::Disabled);
}

#[test]
fn test_exporter_plan() {
    let disabled = OtelConfig::default();
    assert!(exporter_plan(&disabled).is_none());

    let mut config = OtelConfig::default();
    config.enabled = true;
    config.protocol = OtelProtocol::Http;
    config.auth_header = Some(String::from("Basic SECRET-REDACTED"));
    config.export_interval_secs = 30;
    let setup = exporter_plan(&config).expect("enabled export needs a setup");
    assert_eq!(setup.protocol, OtelProtocol::Http);
    assert_eq!(setup.endpoint, default_otel_endpoint());
    assert_eq!(setup.timeout_secs, 10);
    assert_eq!(setup.export_interval_secs, 30);
    assert_eq!(setup.auth_header.as_deref(), Some("Basic SECRET-REDACTED"));
}

#[test]
fn test_instrument_catalog() {
    let catalog = instrument_catalog();
    assert_eq!(catalog.len(), 9);
    assert_eq!(
        catalog[0].name(),
        "git_ai.committed.human_additions"
    );
    assert_eq!(catalog[0].description(), "Number of human-written lines committed");
    assert_eq!(catalog[8].name(), "git_ai.checkpoint.lines_deleted");
    let histograms: Vec<Instrument> =
        catalog.into_iter().filter(|i| i.is_histogram()).collect();
    assert_eq!(
        histograms,
        vec![Instrument::CheckpointLinesAdded, Instrument::CheckpointLinesDeleted]
    );
}
