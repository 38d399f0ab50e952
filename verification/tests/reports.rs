use std::path::PathBuf;

use codex_enhanced::config::{features_label, AblationProfile, EnhancedRuntimeFeatures};
use codex_enhanced::debug_log::{
    next_batch_step, number_batch, rotated_suffix, rotation_plan, BatchStep, DebugLogConfig,
    LogFill, LogPath, PathPart, RotationStep, RuntimeDebugLogConfig,
};
use codex_enhanced::digest::is_sha256_digest;
use codex_enhanced::notifications::{
    event_notification, identity_notification, select_fields, CandidateField, EnhancedPortFlags,
    FieldValue, Notification, NotificationField,
};
use codex_enhanced::reporting::{
    configured_features, event_log_path, identity_from_environment, is_enhanced_process,
    log_new_events, publish_event, ReportingEnvironment,
};
use codex_enhanced::runtime::{
    load_features, EnhancedRuntimeFile, EnhancedSessionRuntime, FeatureSources,
};
use codex_enhanced::telemetry::{
    field_name_is_forbidden, hash_identifier, profile_label, EnhancedEvent, EnhancedEventFields,
    EnhancedEventKind, MemoryTelemetry,
};

#[test]
fn hashes_identifiers_and_rejects_secret_field_names() {
    assert!(hash_identifier("thread-1").starts_with("sha256:"));
    assert_ne!(hash_identifier("thread-1"), "thread-1");
    assert!(field_name_is_forbidden("Authorization"));
    assert!(field_name_is_forbidden("rawPrompt"));
    assert!(!field_name_is_forbidden("request_index"));
}

#[test]
fn spelling_does_not_hide_a_secret() {
    for name in ["API-KEY", " api_key ", "ApiKey", "set-cookie", "x-user-text", "Raw-Tool-Output"] {
        assert!(field_name_is_forbidden(name), "{name}");
    }
    for name in ["callIdHash", "outcome", "", "pro-mpt"] {
        assert!(!field_name_is_forbidden(name), "{name}");
    }
    assert!(is_sha256_digest(&hash_identifier("")));
}

#[test]
fn events_bear_the_name_of_their_kind() {
    let names = [
        (EnhancedEventKind::ToolDuplicateDetected, "enhanced.tool.duplicate_detected"),
        (EnhancedEventKind::ToolDuplicateSuppressed, "enhanced.tool.duplicate_suppressed"),
        (EnhancedEventKind::ToolCallIdCollision, "enhanced.tool.call_id_collision"),
        (EnhancedEventKind::ContextPruneStarted, "enhanced.context.prune_started"),
        (EnhancedEventKind::ContextPruneCompleted, "enhanced.context.prune_completed"),
        (EnhancedEventKind::ContextCompactionAvoided, "enhanced.context.compaction_avoided"),
        (EnhancedEventKind::ContextOverflowRetry, "enhanced.context.overflow_retry"),
        (
            EnhancedEventKind::ContextOverflowRetryRefused,
            "enhanced.context.overflow_retry_refused",
        ),
        (EnhancedEventKind::ContinuationAllowed, "enhanced.continuation.allowed"),
        (EnhancedEventKind::ContinuationExhausted, "enhanced.continuation.exhausted"),
    ];
    for (kind, name) in names {
        assert_eq!(kind.name(), name);
        assert_eq!(EnhancedEvent::new(kind, EnhancedEventFields::default()).name, name);
    }
}

#[test]
fn events_are_counted_by_kind() {
    let mut telemetry = MemoryTelemetry::default();
    let event = |kind| EnhancedEvent::new(kind, EnhancedEventFields::default());
    telemetry.emit(event(EnhancedEventKind::ToolCallAdmitted));
    telemetry.emit_all(&vec![
        event(EnhancedEventKind::ToolCallCompleted),
        event(EnhancedEventKind::ToolCallAdmitted),
    ]);
    assert_eq!(telemetry.count(EnhancedEventKind::ToolCallAdmitted), 2);
    assert_eq!(telemetry.count(EnhancedEventKind::ToolCallCompleted), 1);
    assert_eq!(telemetry.count(EnhancedEventKind::ContinuationAllowed), 0);
}

#[test]
fn profiles_have_names_and_switches() {
    for (profile, name) in [
        (AblationProfile::E0, "E0"),
        (AblationProfile::E1, "E1"),
        (AblationProfile::E2, "E2"),
        (AblationProfile::E3, "E3"),
        (AblationProfile::E4, "E4"),
        (AblationProfile::E5, "E5"),
    ] {
        assert_eq!(profile.as_str(), name);
        assert_eq!(profile_label(profile), name);
        assert_eq!(AblationProfile::parse(name), Some(profile));
        assert_eq!(features_label(profile.features()), name);
    }
    assert_eq!(AblationProfile::parse("e1"), None);
    assert_eq!(features_label(EnhancedRuntimeFeatures::all_on()), "custom");
    assert!(!AblationProfile::E0.features().any_enabled());
    assert!(!AblationProfile::E5.features().repetition_notice);
}

fn event() -> EnhancedEvent {
    EnhancedEvent::new(
        EnhancedEventKind::ContextOverflowRetry,
        EnhancedEventFields {
            retry_index: Some(1),
            before_token_estimate: Some(9),
            call_id_hash: Some("sha256:x".into()),
            succeeded: Some(true),
            ..EnhancedEventFields::default()
        },
    )
}

#[test]
fn an_event_is_reported_with_what_it_holds() {
    let notification = event_notification(&event());
    assert_eq!(notification.method(), "vellum/enhancedEvent");
    let field = |name: &str, value| NotificationField { name: name.into(), value };
    assert_eq!(
        notification,
        Notification::Event {
            name: "enhanced.context.overflow_retry".into(),
            fields: vec![
                field("callIdHash", FieldValue::Text("sha256:x".into())),
                field("beforeTokenEstimate", FieldValue::Number(9)),
                field("retryIndex", FieldValue::Number(1)),
                field("succeeded", FieldValue::Flag(true)),
            ],
        }
    );
}

#[test]
fn every_detail_can_be_reported() {
    let text = || Some("t".to_string());
    let full = EnhancedEventFields {
        thread_id_hash: text(),
        runtime_digest: text(),
        feature_profile: text(),
        provider_id: text(),
        model_id: text(),
        request_index: Some(1),
        call_id_hash: text(),
        before_token_estimate: Some(1),
        after_token_estimate: Some(1),
        chars_removed: Some(1),
        retry_index: Some(1),
        continuation_index: Some(1),
        outcome: text(),
        succeeded: Some(false),
    };
    let event = EnhancedEvent::new(EnhancedEventKind::ToolCallCompleted, full);
    let Notification::Event { fields, .. } = event_notification(&event) else {
        panic!("an event makes an event notification");
    };
    let names: Vec<&str> = fields.iter().map(|field| field.name.as_str()).collect();
    assert_eq!(
        names,
        vec![
            "threadIdHash",
            "runtimeDigest",
            "featureProfile",
            "providerId",
            "modelId",
            "requestIndex",
            "callIdHash",
            "beforeTokenEstimate",
            "afterTokenEstimate",
            "charsRemoved",
            "retryIndex",
            "continuationIndex",
            "outcome",
            "succeeded",
        ]
    );
}

#[test]
fn forbidden_and_absent_details_are_left_out() {
    let candidate = |name: &str, value| CandidateField { name: name.into(), value };
    let picked = select_fields(&vec![
        candidate("Authorization", Some(FieldValue::Text("secret".into()))),
        candidate("outcome", None),
        candidate("outcome", Some(FieldValue::Flag(true))),
    ]);
    assert_eq!(
        picked,
        vec![NotificationField { name: "outcome".into(), value: FieldValue::Flag(true) }]
    );
}

fn environment() -> ReportingEnvironment {
    ReportingEnvironment {
        plane: Some("enhanced-codex".into()),
        digest: Some(" sha256:1 ".into()),
        commit: Some("abc\n".into()),
        features: Some(AblationProfile::E4.features()),
    }
}

#[test]
fn the_runtime_introduces_itself() {
    let expected = identity_notification("abc", "sha256:1", "E4", AblationProfile::E4.features());
    assert_eq!(expected.method(), "vellum/enhancedRuntimeIdentity");
    assert_eq!(
        expected,
        Notification::Identity {
            enhanced_commit: "abc".into(),
            runtime_digest: "sha256:1".into(),
            feature_profile: "E4".into(),
            ports: EnhancedPortFlags {
                qwen_tool_reliability: true,
                deepseek_context_recovery: true,
                qwen_bounded_continuation: false,
            },
        }
    );
    assert_eq!(identity_from_environment(&environment()), Some(expected));
    let blank = ReportingEnvironment { digest: Some(" ".into()), ..environment() };
    assert_eq!(identity_from_environment(&blank), None);
    let missing = ReportingEnvironment { commit: None, ..environment() };
    assert_eq!(identity_from_environment(&missing), None);
    let elsewhere = ReportingEnvironment { plane: Some("codex".into()), ..environment() };
    assert_eq!(identity_from_environment(&elsewhere), None);
    assert_eq!(configured_features(None), EnhancedRuntimeFeatures::all_off());
}

#[test]
fn only_the_enhanced_plane_reports() {
    assert!(is_enhanced_process(&Some("enhanced-codex".into())));
    assert!(!is_enhanced_process(&Some("enhanced-codex ".into())));
    assert!(!is_enhanced_process(&None));
    let elsewhere = ReportingEnvironment { plane: None, ..environment() };
    let mut logged = false;
    let report = publish_event(&event(), &elsewhere, &mut logged);
    assert!(report.log.is_empty());
    assert_eq!(report.send, None);
    assert!(!logged);
}

#[test]
fn the_introduction_comes_first_and_once() {
    let mut telemetry = MemoryTelemetry::default();
    telemetry.emit_all(&vec![event(), event(), event()]);
    let mut logged = false;
    let reports = log_new_events(&telemetry, 1, &environment(), &mut logged);
    assert!(logged);
    assert_eq!(reports.len(), 2);
    assert_eq!(reports[0].log.len(), 2);
    assert_eq!(Some(reports[0].log[0].clone()), identity_from_environment(&environment()));
    assert_eq!(reports[1].log, vec![event_notification(&event())]);
    assert_eq!(reports[1].send, Some(event_notification(&event())));
    assert!(log_new_events(&telemetry, 4, &environment(), &mut logged).is_empty());
}

#[test]
fn event_log_path_must_be_absolute() {
    assert!(!PathBuf::from("relative.jsonl").is_absolute());
    let relative = PathBuf::from("relative.jsonl");
    let given = LogPath { text: "relative.jsonl".into(), absolute: relative.is_absolute() };
    assert_eq!(event_log_path(Some(given)), None);
    let absolute = PathBuf::from("/tmp").join("events.jsonl");
    assert!(absolute.is_absolute());
    let given = LogPath { text: "/tmp/events.jsonl".into(), absolute: absolute.is_absolute() };
    assert_eq!(event_log_path(Some(given.clone())), Some(given));
    assert_eq!(event_log_path(None), None);
}

fn nothing_configured() -> FeatureSources {
    FeatureSources { ablation_profile: None, feature_profile: None, file: None }
}

#[test]
fn missing_file_is_all_off() {
    let features = load_features(&nothing_configured());
    assert!(!features.any_enabled());
}

#[test]
fn ablation_profile_selects_ports() {
    let features = load_features(&FeatureSources {
        file: Some(EnhancedRuntimeFile {
            ablation_profile: Some("E1".into()),
            feature_flags: None,
            compiled_feature_defaults: None,
        }),
        ..nothing_configured()
    });
    assert!(features.qwen_tool_reliability);
    assert!(!features.deepseek_context_recovery);
    assert!(!features.qwen_bounded_continuation);
}

#[test]
fn sources_of_switches_go_before_one_another() {
    let e = |profile: AblationProfile| Some(profile.features());
    let mut file = EnhancedRuntimeFile {
        ablation_profile: Some("nonsense".into()),
        feature_flags: None,
        compiled_feature_defaults: e(AblationProfile::E2),
    };
    let with = |file: &EnhancedRuntimeFile| FeatureSources {
        file: Some(file.clone()),
        ..nothing_configured()
    };
    assert_eq!(Some(load_features(&with(&file))), e(AblationProfile::E2));
    file.feature_flags = e(AblationProfile::E3);
    assert_eq!(Some(load_features(&with(&file))), e(AblationProfile::E3));
    file.ablation_profile = Some("E4".into());
    assert_eq!(Some(load_features(&with(&file))), e(AblationProfile::E4));
    let mut sources = with(&file);
    sources.feature_profile = e(AblationProfile::E1);
    assert_eq!(Some(load_features(&sources)), e(AblationProfile::E1));
    sources.ablation_profile = Some("E5".into());
    assert_eq!(Some(load_features(&sources)), e(AblationProfile::E5));
}

#[test]
fn a_session_reports_its_switches_first() {
    let runtime = EnhancedSessionRuntime::load(AblationProfile::E3.features(), None);
    assert_eq!(runtime.telemetry.events.len(), 1);
    let first = &runtime.telemetry.events[0];
    assert_eq!(first.kind, EnhancedEventKind::SessionFeaturesApplied);
    assert_eq!(first.fields.feature_profile.as_deref(), Some("E3"));
    assert!(!runtime.ledger_restored);
    assert!(runtime.last_surface.is_none());
    assert!(EnhancedSessionRuntime::all_off().telemetry.events.is_empty());
}

fn path(text: &str, absolute: bool) -> Option<LogPath> {
    Some(LogPath { text: text.into(), absolute })
}

#[test]
fn the_log_is_kept_where_it_is_asked_for() {
    let off = RuntimeDebugLogConfig::default();
    assert_eq!(DebugLogConfig::load(None, off.clone(), Some(true)), None);
    let config = DebugLogConfig::load(path("/l", true), off.clone(), None).unwrap();
    assert_eq!(config.path, vec![PathPart::Text("/l".into())]);
    assert_eq!(config.max_bytes, 8 * 1024 * 1024);
    assert_eq!(config.retained_files, 4);
    assert_eq!(config.queue_capacity, 2_048);
    assert_eq!(config.flush_interval_ms, 250);
    assert_eq!(DebugLogConfig::load(path("l", false), off.clone(), None), None);
    let config = DebugLogConfig::load(path("l", false), off, Some(true)).unwrap();
    assert_eq!(config.path, vec![PathPart::Home, PathPart::Text("l".into())]);
    let on = RuntimeDebugLogConfig { enabled: true, ..RuntimeDebugLogConfig::default() };
    assert_eq!(DebugLogConfig::load(None, on.clone(), None), None);
    let below = vec![
        PathPart::Home,
        PathPart::Text("log".into()),
        PathPart::Text("enhanced-events.jsonl".into()),
    ];
    assert_eq!(DebugLogConfig::load(None, on.clone(), Some(true)).unwrap().path, below);
    let relative = DebugLogConfig::load(None, on, Some(false)).unwrap();
    assert_eq!(relative.path[0], PathPart::Home);
    assert_eq!(relative.path[1..], below[..]);
}

#[test]
fn the_log_keeps_within_bounds() {
    let wild = |n: u64| RuntimeDebugLogConfig {
        enabled: true,
        path: path("/l", true),
        max_bytes: Some(n),
        retained_files: Some(n as usize),
        queue_capacity: Some(n as usize),
        flush_interval_ms: Some(n),
    };
    let low = DebugLogConfig::load(None, wild(0), None).unwrap();
    assert_eq!(low.max_bytes, 64 * 1024);
    assert_eq!(low.retained_files, 1);
    assert_eq!(low.queue_capacity, 64);
    assert_eq!(low.flush_interval_ms, 10);
    let high = DebugLogConfig::load(None, wild(u32::MAX as u64), None).unwrap();
    assert_eq!(high.max_bytes, 1024 * 1024 * 1024);
    assert_eq!(high.retained_files, 16);
    assert_eq!(high.queue_capacity, 65_536);
    assert_eq!(high.flush_interval_ms, 5_000);
}

#[test]
fn a_batch_is_written_when_it_is_full_or_late() {
    assert_eq!(next_batch_step(256, 10, 0), BatchStep::Write);
    assert_eq!(next_batch_step(1, 10, 10_000_001), BatchStep::Write);
    assert_eq!(next_batch_step(1, 10, 10_000_000), BatchStep::Wait { nanos: 0 });
    assert_eq!(next_batch_step(255, 10, 4), BatchStep::Wait { nanos: 9_999_996 });
}

#[test]
fn records_are_numbered_in_a_row() {
    let numbers = number_batch(5, 3, 0);
    assert_eq!(numbers.records, vec![6, 7, 8]);
    assert_eq!(numbers.dropped, None);
    assert_eq!(numbers.sequence, 8);
    let numbers = number_batch(0, 1, 9);
    assert_eq!(numbers.records, vec![1]);
    assert_eq!(numbers.dropped, Some(2));
    assert_eq!(numbers.sequence, 2);
    assert_eq!(number_batch(u64::MAX, 1, 0).records, vec![u64::MAX]);
    let first = number_batch(5, 3, 0);
    let rest = number_batch(first.sequence, 0, 9);
    assert_eq!(rest.dropped, number_batch(5, 3, 9).dropped);
    assert_eq!(rest.sequence, number_batch(5, 3, 9).sequence);
}

#[test]
fn files_rotate_when_a_record_does_not_fit() {
    let mut fill = LogFill { bytes_written: 0 };
    assert!(!fill.needs_rotation(500, 128));
    fill.note_write(500);
    assert!(fill.needs_rotation(1, 128));
    fill.note_rotation();
    fill.note_write(100);
    assert!(!fill.needs_rotation(28, 128));
    assert!(fill.needs_rotation(29, 128));
    fill.note_write(u64::MAX);
    assert_eq!(fill.bytes_written, u64::MAX);
}

#[test]
fn a_rotation_moves_every_file_and_drops_the_oldest() {
    assert_eq!(rotation_plan(1), vec![RotationStep::Create]);
    assert_eq!(
        rotation_plan(2),
        vec![
            RotationStep::Remove { index: 1 },
            RotationStep::MoveLive,
            RotationStep::Create,
        ]
    );
    assert_eq!(
        rotation_plan(4),
        vec![
            RotationStep::Remove { index: 3 },
            RotationStep::MoveIfPresent { from: 2, to: 3 },
            RotationStep::MoveIfPresent { from: 1, to: 2 },
            RotationStep::MoveLive,
            RotationStep::Create,
        ]
    );
    assert_eq!(rotated_suffix(0), ".0");
    assert_eq!(rotated_suffix(12), ".12");
}
