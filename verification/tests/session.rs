use codex_enhanced::bounded_continuation::{AutoContinuationBudget, ReservedContinuation};
use codex_enhanced::config::AblationProfile;
use codex_enhanced::hooks::EnhancedTurnHooks;
use codex_enhanced::response_items::{output_identity_and_text, OutputPayload, ResponseItem};
use codex_enhanced::runtime::EnhancedSessionRuntime;
use codex_enhanced::seams::context::{
    apply_context_projections, apply_pressure_to_prompt, plan_overflow_for_prompt,
    remember_context_projections, OverflowSeam,
};
use codex_enhanced::seams::tools::{
    admit_tool_call, complete_tool_call, is_drop_tool_output, restore_ledger_if_needed,
    FunctionCallError, ToolCall, ToolPayload,
};
use codex_enhanced::seams::turns::{
    commit_pending_continuation, on_new_user_input, on_turn_idle, start_continuation,
};
use codex_enhanced::telemetry::EnhancedEventKind;
use codex_enhanced::tool_reliability::canonical_json;

fn runtime_with(profile: AblationProfile) -> EnhancedSessionRuntime {
    let mut runtime = EnhancedSessionRuntime::all_off();
    runtime.hooks = EnhancedTurnHooks::new(profile.features());
    runtime
}

fn shell_call(call_id: &str, cmd: &str) -> ToolCall {
    ToolCall {
        tool_name: "shell".into(),
        namespace: None,
        call_id: call_id.into(),
        payload: ToolPayload::Function {
            arguments: format!("{{\"cmd\":\"{cmd}\"}}"),
        },
    }
}

fn output(call_id: &str, text: &str) -> ResponseItem {
    ResponseItem::FunctionCallOutput {
        call_id: Some(call_id.into()),
        name: Some("shell".into()),
        output: OutputPayload::from_text(text.into()),
    }
}

fn call_item(call_id: &str) -> ResponseItem {
    ResponseItem::FunctionCall {
        name: "shell".into(),
        arguments: "{\"cmd\":\"ls\"}".into(),
        call_id: call_id.into(),
    }
}

#[test]
fn a_session_executes_and_delivers_a_call_once() {
    let mut runtime = runtime_with(AblationProfile::E1);
    restore_ledger_if_needed(&mut runtime, &vec![]);
    let call = shell_call("c1", "ls");
    assert!(admit_tool_call(&mut runtime, &call).is_ok());
    assert!(complete_tool_call(&mut runtime, "c1", true).is_ok());
    on_turn_idle(&mut runtime);
    on_new_user_input(&mut runtime);
    restore_ledger_if_needed(&mut runtime, &vec![]);
    for _ in 0..3 {
        assert!(is_drop_tool_output(&admit_tool_call(&mut runtime, &call).unwrap_err()));
        assert!(is_drop_tool_output(
            &complete_tool_call(&mut runtime, "c1", true).unwrap_err()
        ));
    }
    assert!(admit_tool_call(&mut runtime, &shell_call("c2", "ls")).is_ok());
    assert!(complete_tool_call(&mut runtime, "c2", true).is_ok());
}

#[test]
fn every_early_duplicate_is_answered_and_the_late_result_dropped() {
    let mut runtime = runtime_with(AblationProfile::E1);
    let call = shell_call("c1", "ls");
    assert!(admit_tool_call(&mut runtime, &call).is_ok());
    for _ in 0..2 {
        let error = admit_tool_call(&mut runtime, &call).unwrap_err();
        assert!(matches!(error, FunctionCallError::RespondToModel(_)));
        assert!(!is_drop_tool_output(&error));
    }
    assert!(is_drop_tool_output(
        &complete_tool_call(&mut runtime, "c1", true).unwrap_err()
    ));
}

#[test]
fn a_call_of_the_history_is_not_executed_again() {
    let mut runtime = runtime_with(AblationProfile::E1);
    restore_ledger_if_needed(&mut runtime, &vec![call_item("c1"), output("c1", "ok")]);
    let error = admit_tool_call(&mut runtime, &shell_call("c1", "ls")).unwrap_err();
    assert!(is_drop_tool_output(&error));
    assert!(matches!(
        admit_tool_call(&mut runtime, &shell_call("c1", "pwd")),
        Err(FunctionCallError::Fatal(_))
    ));
}

#[test]
fn a_session_retries_once_until_the_user_speaks() {
    let mut runtime = runtime_with(AblationProfile::E2);
    let items = vec![call_item("c1"), output("c1", &"x".repeat(8_000))];
    for _ in 0..2 {
        assert!(matches!(
            plan_overflow_for_prompt(&mut runtime, &items, 0, 24_000, false),
            OverflowSeam::Retry { .. }
        ));
        assert!(matches!(
            plan_overflow_for_prompt(&mut runtime, &items, 0, 24_000, false),
            OverflowSeam::PreserveOriginalError
        ));
        on_new_user_input(&mut runtime);
    }
    assert_eq!(runtime.telemetry.count(EnhancedEventKind::ContextOverflowRetry), 2);
}

#[test]
fn a_second_cut_is_shown_in_place_of_the_original() {
    let mut runtime = runtime_with(AblationProfile::E2);
    let original = vec![output("c1", "the whole text")];
    let first = vec![output("c1", "the whole")];
    let second = vec![output("c1", "the")];
    remember_context_projections(&mut runtime, &original, &first);
    let mut shown = original.clone();
    apply_context_projections(&mut runtime, &mut shown);
    assert_eq!(shown, first);
    remember_context_projections(&mut runtime, &shown, &second);
    let mut shown = original.clone();
    apply_context_projections(&mut runtime, &mut shown);
    assert_eq!(output_identity_and_text(&shown[0]).unwrap().1, "the");
    let mut other = vec![output("c2", "the whole text")];
    apply_context_projections(&mut runtime, &mut other);
    assert_eq!(output_identity_and_text(&other[0]).unwrap().1, "the whole text");
}

#[test]
fn texts_are_quoted_with_their_control_characters_escaped() {
    assert_eq!(
        canonical_json("a\u{1}\u{1f}\u{8}\u{c}\n\r\t\\/\u{7f}\u{e9}"),
        "\"a\\u0001\\u001f\\b\\f\\n\\r\\t\\\\/\u{7f}\u{e9}\""
    );
    assert_eq!(canonical_json(""), "\"\"");
}

#[test]
fn with_the_port_off_a_known_call_is_not_held_back() {
    let mut runtime = runtime_with(AblationProfile::E1);
    let call = shell_call("c1", "ls");
    assert!(admit_tool_call(&mut runtime, &call).is_ok());
    assert!(admit_tool_call(&mut runtime, &call).is_err());
    runtime.hooks.features = AblationProfile::E0.features();
    assert!(admit_tool_call(&mut runtime, &call).is_ok());
    assert!(complete_tool_call(&mut runtime, "c1", true).is_ok());
}

#[test]
fn a_session_with_every_switch_off_stays_as_it_began() {
    let mut runtime = EnhancedSessionRuntime::all_off();
    let items = vec![call_item("c1"), output("c1", &"x".repeat(8_000))];
    restore_ledger_if_needed(&mut runtime, &items);
    assert!(admit_tool_call(&mut runtime, &shell_call("c1", "ls")).is_ok());
    assert!(complete_tool_call(&mut runtime, "c1", false).is_ok());
    let mut prompt = items.clone();
    apply_context_projections(&mut runtime, &mut prompt);
    remember_context_projections(&mut runtime, &items, &vec![output("c1", "x")]);
    assert!(matches!(
        plan_overflow_for_prompt(&mut runtime, &items, 0, 24_000, false),
        OverflowSeam::DeferToUpstream
    ));
    let reserved = ReservedContinuation { index: 1 };
    assert!(!start_continuation(&mut runtime, reserved, false));
    assert!(start_continuation(&mut runtime, reserved, true));
    assert_eq!(runtime.pending_continuation, Some(reserved));
    commit_pending_continuation(&mut runtime);
    on_new_user_input(&mut runtime);
    on_turn_idle(&mut runtime);
    assert_eq!(prompt, items);
    assert!(runtime.hooks.ledger.is_empty());
    assert_eq!(runtime.hooks.continuation, AutoContinuationBudget::default());
    assert_eq!(runtime.hooks.overflow_retries_used, 0);
    assert!(runtime.telemetry.events.is_empty());
    assert!(runtime.context_projections.durable().records.is_empty());
    assert!(runtime.last_surface.is_none());
    assert!(runtime.pending_continuation.is_none());
    assert!(!runtime.ledger_restored);
}

#[test]
fn a_second_relief_is_shown_for_the_whole_text() {
    let mut runtime = runtime_with(AblationProfile::E2);
    let history = vec![call_item("c1"), output("c1", &"x".repeat(8_000)), output("c2", "short")];
    let mut first = history.clone();
    apply_pressure_to_prompt(&mut runtime, &mut first, 2_000, 1_700, 1_900);
    let mut prompt = history.clone();
    apply_context_projections(&mut runtime, &mut prompt);
    assert_eq!(prompt, first);
    runtime.hooks.prune_policy.min_text_chars = 100;
    runtime.hooks.prune_policy.keep_head_chars = 10;
    runtime.hooks.prune_policy.keep_tail_chars = 20;
    apply_pressure_to_prompt(&mut runtime, &mut prompt, 2_000, 0, 1_900);
    assert_ne!(prompt, first);
    let mut shown = history.clone();
    apply_context_projections(&mut runtime, &mut shown);
    assert_eq!(shown, prompt);
}

#[test]
fn a_text_that_is_replaced_already_is_shown_as_it_is_pruned_now() {
    let mut runtime = runtime_with(AblationProfile::E2);
    let whole = vec![output("c1", &"x".repeat(8_000))];
    runtime.context_projections.record("c1", &"x".repeat(8_000), "earlier");
    let mut relieved = whole.clone();
    apply_pressure_to_prompt(&mut runtime, &mut relieved, 2_000, 1_700, 1_900);
    let mut shown = whole.clone();
    apply_context_projections(&mut runtime, &mut shown);
    assert_eq!(shown, relieved);
    assert_ne!(shown, whole);
}
