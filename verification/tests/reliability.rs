use codex_enhanced::digest::text_sha256;
use codex_enhanced::telemetry::EnhancedEventKind;
use codex_enhanced::tool_observation::{
    fingerprint_original_result, is_native_wait_poll, ObservationDecision, ObservationInput,
    ObservationLog, ObservationResultStatus, REPETITION_NOTICE,
};
use codex_enhanced::tool_reliability::{
    canonical_json, canonical_namespace, choose_arguments, search_arguments, search_object,
    AdmitDecision, LateResultDecision, LedgerError, ToolCallLedger, ToolCallResolution, ToolKind,
};

#[test]
fn arguments_count_by_their_value() {
    assert_eq!(canonical_json("{ \"b\" : 2, \"a\" : [ 1 ] }"), "{\"a\":[1],\"b\":2}");
    assert_eq!(canonical_json("not json"), "\"not json\"");
    assert_eq!(canonical_json("say \"hi\""), "\"say \\\"hi\\\"\"");
    assert_eq!(
        ToolCallLedger::identity("c", "shell", "{\"a\":1,\"b\":2}"),
        ToolCallLedger::identity("c", "shell", "{ \"b\": 2, \"a\": 1 }")
    );
    assert_ne!(
        ToolCallLedger::identity("c", "shell", "{\"a\":1}"),
        ToolCallLedger::identity("c", "shell", "{\"a\":2}")
    );
    assert_eq!(choose_arguments(Some("1".into()), "\"1\"".into()), "1");
    assert_eq!(choose_arguments(None, "\"x\"".into()), "\"x\"");
}

#[test]
fn searches_count_by_their_query() {
    assert_eq!(search_arguments("a \"b\""), "{\"query\":\"a \\\"b\\\"\"}");
    assert_eq!(search_object("\"x\""), "{\"query\":\"x\"}");
}

#[test]
fn fingerprints_are_digests_of_everything_that_a_call_asks_for() {
    let print = ToolCallLedger::fingerprint_raw("apply_patch", ToolKind::Custom, " ns ", "patch");
    assert_eq!(print, text_sha256("custom\nns\napply_patch\npatch"));
    let search = ToolCallLedger::fingerprint_raw("t", ToolKind::ToolSearch, "", "q");
    assert_eq!(search, text_sha256("tool_search\n\nt\nq"));
    assert_eq!(canonical_namespace("\t a b \n"), "a b");
    let identity = ToolCallLedger::identity("c", "shell", "{}");
    assert_eq!(identity.tool_kind, ToolKind::Function);
    assert_eq!(identity.namespace, "");
    assert_eq!(identity.argument_fingerprint, text_sha256("function\n\nshell\n{}"));
}

#[test]
fn a_call_is_executed_once_and_its_result_passed_on_once() {
    let mut ledger = ToolCallLedger::new();
    assert!(ledger.is_empty());
    let identity = ToolCallLedger::identity("c1", "shell", "{}");
    let first = ledger.admit_call(identity.clone());
    assert_eq!(first.decision, AdmitDecision::Execute);
    assert_eq!(first.events.len(), 1);
    assert_eq!(first.events[0].kind, EnhancedEventKind::ToolCallAdmitted);
    assert_eq!(first.events[0].fields.call_id_hash, Some(text_sha256("c1")));
    let again = ledger.admit_call(identity);
    assert_eq!(
        again.decision,
        AdmitDecision::SuppressDuplicate {
            message: "Tool call c1 was already handled; the duplicate was not executed.".into()
        }
    );
    assert_eq!(again.events[0].kind, EnhancedEventKind::ToolDuplicateDetected);
    assert_eq!(again.events[1].kind, EnhancedEventKind::ToolDuplicateSuppressed);
    assert_eq!(ledger.complete_original("c1"), LateResultDecision::Accept);
    assert_eq!(ledger.complete_original("c1"), LateResultDecision::Suppress);
    assert_eq!(ledger.ingest_late_result("c1"), LateResultDecision::Suppress);
    assert_eq!(ledger.ingest_late_result("unknown"), LateResultDecision::Accept);
}

#[test]
fn another_call_under_the_same_identifier_fails_closed() {
    let mut ledger = ToolCallLedger::new();
    ledger.admit_call(ToolCallLedger::identity("c1", "shell", "{\"a\":1}"));
    let outcome = ledger.admit_call(ToolCallLedger::identity("c1", "shell", "{\"a\":2}"));
    assert_eq!(
        outcome.decision,
        AdmitDecision::FailClosed {
            message: "Tool call id c1 was reused for a different call; nothing was executed."
                .into()
        }
    );
    assert_eq!(outcome.events[0].kind, EnhancedEventKind::ToolCallIdCollision);
    assert_eq!(ledger.get("c1").unwrap().dispatch_index, 0);
}

#[test]
fn an_answered_duplicate_suppresses_the_original_result() {
    let mut ledger = ToolCallLedger::new();
    ledger.admit_call(ToolCallLedger::identity("c1", "shell", "{}"));
    ledger.mark_resolution("c1", ToolCallResolution::SyntheticDuplicate);
    assert_eq!(ledger.complete_original("c1"), LateResultDecision::Suppress);
    let known = ledger.get("c1").unwrap();
    assert!(known.synthetic_duplicate_emitted);
    assert!(!known.original_result_delivered);
    ledger.mark_resolution("c1", ToolCallResolution::Failed);
    let known = ledger.get("c1").unwrap();
    assert_eq!(known.resolution, ToolCallResolution::Failed);
    assert!(known.synthetic_duplicate_emitted);
}

#[test]
fn a_ledger_with_one_identifier_twice_is_not_restored() {
    let mut ledger = ToolCallLedger::new();
    ledger.admit_call(ToolCallLedger::identity("a", "shell", "{}"));
    ledger.admit_call(ToolCallLedger::identity("b", "shell", "{}"));
    let a = ledger.get("a").unwrap().clone();
    let b = ledger.get("b").unwrap().clone();
    assert_eq!(b.dispatch_index, 1);
    assert!(ToolCallLedger::from_durable(vec![a.clone(), b.clone()]).is_ok());
    let error = ToolCallLedger::from_durable(vec![a, b.clone(), b]).unwrap_err();
    assert_eq!(error, LedgerError::DuplicateCallId("b".into()));
}

fn seen(dispatch_index: u64, input: &str) -> ObservationInput {
    ObservationInput {
        tool_name: "shell".into(),
        tool_kind: ToolKind::Function,
        namespace: "".into(),
        input_fingerprint: input.into(),
        original_result_fingerprint: "r".into(),
        dispatch_index,
        result_status: ObservationResultStatus::Success,
        native_wait_poll: false,
    }
}

const SILENT: ObservationDecision =
    ObservationDecision { emit_model_notice: false, standalone_notice: false };

#[test]
fn the_third_result_in_a_row_is_noticed_once() {
    let mut log = ObservationLog::new();
    for index in 0..2 {
        let outcome = log.observe("c", seen(index, "x"), true);
        assert_eq!(outcome.decision, SILENT);
        assert!(outcome.events.is_empty());
    }
    let third = log.observe("c", seen(2, "x"), true);
    assert!(third.decision.emit_model_notice);
    assert!(!third.decision.standalone_notice);
    assert_eq!(third.events[0].kind, EnhancedEventKind::ToolRepetitionObserved);
    assert_eq!(third.events[1].kind, EnhancedEventKind::ToolRepetitionNoticeAppended);
    let fourth = log.observe("c", seen(3, "x"), true);
    assert_eq!(fourth.decision, SILENT);
    assert!(fourth.events.is_empty());
}

#[test]
fn a_row_that_is_completed_in_its_middle_is_noticed_apart() {
    let mut log = ObservationLog::new();
    log.observe("a", seen(0, "x"), true);
    log.observe("c", seen(2, "x"), true);
    let middle = log.observe("b", seen(1, "x"), true);
    assert!(!middle.decision.emit_model_notice);
    assert!(middle.decision.standalone_notice);
}

#[test]
fn other_results_and_waiting_break_a_row() {
    let mut log = ObservationLog::new();
    log.observe("a", seen(0, "x"), true);
    log.observe("b", seen(1, "y"), true);
    assert_eq!(log.observe("c", seen(2, "x"), true).decision, SILENT);
    let mut failed = seen(3, "x");
    failed.result_status = ObservationResultStatus::Failed;
    assert_eq!(log.observe("d", failed, true).decision, SILENT);
    let mut log = ObservationLog::new();
    for index in 0..5 {
        let mut poll = seen(index, "x");
        poll.native_wait_poll = true;
        assert!(log.observe("w", poll, true).events.is_empty());
    }
}

#[test]
fn without_the_switch_a_row_is_only_reported() {
    let mut log = ObservationLog::new();
    log.observe("a", seen(0, "x"), false);
    log.observe("b", seen(1, "x"), false);
    let outcome = log.observe("c", seen(2, "x"), false);
    assert_eq!(outcome.decision, SILENT);
    assert_eq!(outcome.events.len(), 1);
    assert_eq!(outcome.events[0].kind, EnhancedEventKind::ToolRepetitionObserved);
}

#[test]
fn a_notice_behind_a_result_does_not_change_its_fingerprint() {
    let noticed = format!("ok\n{REPETITION_NOTICE}");
    assert_eq!(
        fingerprint_original_result(&noticed, Some(REPETITION_NOTICE)),
        text_sha256("ok")
    );
    assert_eq!(fingerprint_original_result(&noticed, None), text_sha256(&noticed));
    assert_eq!(
        fingerprint_original_result("ok", Some(REPETITION_NOTICE)),
        text_sha256("ok")
    );
}

#[test]
fn waiting_is_a_function_outside_any_namespace() {
    assert!(is_native_wait_poll("wait", ToolKind::Function, ""));
    assert!(!is_native_wait_poll("wait", ToolKind::Custom, ""));
    assert!(!is_native_wait_poll("wait", ToolKind::Function, "mcp"));
    assert!(!is_native_wait_poll("waiting", ToolKind::Function, ""));
}
