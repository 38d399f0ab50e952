use codex_enhanced::bounded_continuation::{
    ContinuationDecision, ReservedContinuation, TurnStopContext, UnfinishedSignal,
};
use codex_enhanced::config::AblationProfile;
use codex_enhanced::context_pruner::{ContentBlock, SurfaceItem};
use codex_enhanced::digest::text_sha256;
use codex_enhanced::hooks::{EnhancedTurnHooks, HookDecision};
use codex_enhanced::replay::SeenCalls;
use codex_enhanced::response_items::{
    apply_surface_to_items, content_text, output_identity_and_text,
    response_items_to_estimated_surface, response_items_to_surface, surface_token_estimates,
    ContentItem, OutputBody, OutputPayload, ResponseItem,
};
use codex_enhanced::runtime::EnhancedSessionRuntime;
use codex_enhanced::seams::context::{
    apply_context_projections, apply_pressure_to_prompt,
    clear_context_projections_after_compaction, decide_overflow_retry, plan_overflow_for_prompt,
    OverflowSeam, PressureSeam,
};
use codex_enhanced::seams::tools::{
    admit_tool_call, apply_repetition_notices, complete_tool_call, complete_tool_call_with_result,
    drop_tool_output_error, identity_from_call, is_drop_tool_output, ledger_from_history,
    needs_ledger_restore, remove_replayed_tool_calls_from_prompt, restore_ledger_if_needed,
    suppress_replayed_tool_call_in_response, FunctionCallError, ToolCall, ToolPayload,
};
use codex_enhanced::seams::turns::{
    accepted_plan_arguments, commit_pending_continuation, maybe_continue_turn,
    on_assistant_success, on_new_user_input, on_turn_idle, release_pending_continuation,
    start_continuation, unfinished_from_items, StepStatus,
};
use codex_enhanced::telemetry::{EnhancedEventKind, MemoryTelemetry};
use codex_enhanced::tool_observation::REPETITION_NOTICE;
use codex_enhanced::tool_reliability::{
    AdmitDecision, ToolCallLedger, ToolCallResolution, ToolKind,
};

fn runtime_with(profile: AblationProfile) -> EnhancedSessionRuntime {
    let mut runtime = EnhancedSessionRuntime::all_off();
    runtime.hooks = EnhancedTurnHooks::new(profile.features());
    runtime
}

/// The trigger of a window of one token.
fn forced_trigger() -> u64 {
    (1f64 * 0.85).floor() as u64
}

fn call_item(call_id: &str, arguments: &str) -> ResponseItem {
    ResponseItem::FunctionCall {
        name: "shell".into(),
        arguments: arguments.into(),
        call_id: call_id.into(),
    }
}

fn output_with(call_id: &str, text: String) -> ResponseItem {
    ResponseItem::FunctionCallOutput {
        call_id: Some(call_id.into()),
        name: Some("shell".into()),
        output: OutputPayload::from_text(text),
    }
}

fn output_item(call_id: &str) -> ResponseItem {
    output_with(call_id, "ok".into())
}

fn plan_call_item(call_id: &str, status: &str) -> ResponseItem {
    ResponseItem::FunctionCall {
        name: "update_plan".into(),
        arguments: format!(
            "{{\"explanation\":null,\"plan\":[{{\"step\":\"finish\",\"status\":\"{status}\"}}]}}"
        ),
        call_id: call_id.into(),
    }
}

fn plan_output_item(call_id: &str, success: bool) -> ResponseItem {
    let mut output = OutputPayload::from_text("Plan updated".into());
    output.success = Some(success);
    ResponseItem::FunctionCallOutput {
        call_id: Some(call_id.into()),
        name: Some("update_plan".into()),
        output,
    }
}

/// The steps that the accepted plan states, as the host decodes them.
fn decoded_plan(items: &Vec<ResponseItem>) -> Option<Vec<StepStatus>> {
    let arguments = accepted_plan_arguments(items)?;
    let value = serde_json::from_str::<serde_json::Value>(&arguments).ok()?;
    let mut steps = Vec::new();
    for step in value.get("plan")?.as_array()? {
        steps.push(match step.get("status")?.as_str()? {
            "pending" => StepStatus::Pending,
            "in_progress" => StepStatus::InProgress,
            "completed" => StepStatus::Completed,
            _ => return None,
        });
    }
    Some(steps)
}

fn unfinished(items: Vec<ResponseItem>) -> Vec<UnfinishedSignal> {
    let plan = decoded_plan(&items);
    unfinished_from_items(&items, &plan)
}

#[test]
fn only_a_successfully_applied_native_plan_can_arm_continuation() {
    let pending = plan_call_item("plan-1", "pending");
    assert!(unfinished(vec![pending.clone()]).is_empty());
    assert!(unfinished(vec![pending.clone(), plan_output_item("plan-1", false)]).is_empty());
    assert_eq!(
        unfinished(vec![pending, plan_output_item("plan-1", true)]),
        vec![UnfinishedSignal::NativePlanIncomplete]
    );
    assert!(unfinished(vec![
        plan_call_item("plan-2", "completed"),
        plan_output_item("plan-2", true),
    ])
    .is_empty());
}

#[test]
fn empty_history_first_call_executes() {
    let mut ledger = ledger_from_history(&vec![]);
    let identity = ToolCallLedger::identity("c1", "shell", r#"{"a":1}"#);
    let outcome = ledger.admit_call(identity);
    assert!(matches!(outcome.decision, AdmitDecision::Execute));
}

#[test]
fn first_original_result_is_forwarded() {
    let mut runtime = runtime_with(AblationProfile::E1);
    let mut telemetry = MemoryTelemetry::default();
    let identity = ToolCallLedger::identity("c1", "shell", r#"{"a":1}"#);
    assert!(matches!(
        runtime.hooks.admit_tool_call(identity, &mut telemetry),
        HookDecision::Handled(AdmitDecision::Execute)
    ));
    assert!(complete_tool_call(&mut runtime, "c1", true).is_ok());
}

#[test]
fn replayed_provider_call_is_removed_only_when_e1_is_enabled() {
    let duplicate = call_item("c1", r#"{"path":"result.txt"}"#);
    let original = duplicate.clone();
    let output = output_item("c1");

    let mut disabled_items = vec![original.clone(), duplicate.clone(), output.clone()];
    remove_replayed_tool_calls_from_prompt(
        &EnhancedSessionRuntime::all_off(),
        &mut disabled_items,
    );
    assert_eq!(disabled_items.len(), 3);

    let runtime = runtime_with(AblationProfile::E1);
    let mut enabled_items = vec![original, duplicate, output.clone()];
    remove_replayed_tool_calls_from_prompt(&runtime, &mut enabled_items);
    assert_eq!(
        enabled_items,
        vec![call_item("c1", r#"{"path":"result.txt"}"#), output]
    );
}

#[test]
fn colliding_call_id_is_preserved_for_fail_closed_handling() {
    let runtime = runtime_with(AblationProfile::E1);
    let mut items = vec![
        call_item("c1", r#"{"value":1}"#),
        call_item("c1", r#"{"value":2}"#),
    ];
    remove_replayed_tool_calls_from_prompt(&runtime, &mut items);
    assert_eq!(items.len(), 2);
}

#[test]
fn response_replay_is_suppressed_before_tool_scheduling() {
    let mut runtime = runtime_with(AblationProfile::E1);
    let call = call_item("c1", r#"{"value":1}"#);
    let mut seen = SeenCalls::new();
    assert!(!suppress_replayed_tool_call_in_response(
        &mut runtime,
        &call,
        &mut seen
    ));
    assert!(suppress_replayed_tool_call_in_response(
        &mut runtime,
        &call,
        &mut seen
    ));
    assert_eq!(
        runtime
            .telemetry
            .count(EnhancedEventKind::ToolDuplicateSuppressed),
        1
    );
    assert!(runtime.hooks.ledger.is_empty());
}

#[test]
fn provider_overflow_forces_prune_below_local_pressure_threshold() {
    let mut runtime = runtime_with(AblationProfile::E2);
    let call = call_item("c1", "{}");
    let output = output_with("c1", "x".repeat(8_000));
    assert!(matches!(
        plan_overflow_for_prompt(
            &mut runtime,
            &vec![call, output],
            forced_trigger(),
            24_000,
            false
        ),
        OverflowSeam::Retry { .. }
    ));
    assert_eq!(
        runtime
            .telemetry
            .count(EnhancedEventKind::ContextOverflowRetry),
        1
    );
}

#[test]
fn context_projection_persists_across_follow_up_prompts_without_losing_new_input() {
    let mut runtime = runtime_with(AblationProfile::E2);
    let original = vec![call_item("c1", "{}"), output_with("c1", "x".repeat(8_000))];
    let OverflowSeam::Retry { pruned } =
        plan_overflow_for_prompt(&mut runtime, &original, forced_trigger(), 24_000, false)
    else {
        panic!("overflow must produce one pruned retry");
    };
    assert!(
        response_items_to_surface(&pruned).byte_count()
            < response_items_to_surface(&original).byte_count()
    );

    for follow_up in 0..3 {
        let mut prompt = original.clone();
        prompt.push(ResponseItem::Message {
            role: "user".into(),
            content: vec![ContentItem::InputText {
                text: format!("follow-up-{follow_up}"),
            }],
        });
        apply_context_projections(&mut runtime, &mut prompt);
        assert!(
            response_items_to_surface(&prompt).byte_count()
                < response_items_to_surface(&original).byte_count() + 100
        );
        assert!(matches!(
            prompt.last(),
            Some(ResponseItem::Message { content, .. })
                if content_text(content) == format!("follow-up-{follow_up}")
        ));
        assert_eq!(prompt[1], pruned[1]);
    }
    assert_eq!(
        runtime
            .telemetry
            .count(EnhancedEventKind::ContextProjectionApplied),
        3
    );
}

#[test]
fn context_projection_does_not_match_changed_output_and_clears_after_compaction() {
    let mut runtime = runtime_with(AblationProfile::E2);
    runtime
        .context_projections
        .record("c1", "large original", "small");
    let mut changed = vec![output_with("c1", "different original".into())];
    apply_context_projections(&mut runtime, &mut changed);
    assert_eq!(
        output_identity_and_text(&changed[0]).unwrap().1,
        "different original"
    );

    clear_context_projections_after_compaction(&mut runtime);
    let mut original = vec![output_with("c1", "large original".into())];
    apply_context_projections(&mut runtime, &mut original);
    assert_eq!(
        output_identity_and_text(&original[0]).unwrap().1,
        "large original"
    );
}

#[test]
fn restored_completed_call_is_not_reexecuted() {
    let arguments = r#"{"a":1}"#;
    let mut ledger = ledger_from_history(&vec![call_item("c1", arguments), output_item("c1")]);
    let identity = ToolCallLedger::identity("c1", "shell", r#"{"a":1}"#);
    let outcome = ledger.admit_call(identity);
    assert!(matches!(
        outcome.decision,
        AdmitDecision::SuppressDuplicate { .. }
    ));
}

#[test]
fn pending_continuation_clears_on_idle_and_new_input() {
    let mut runtime = EnhancedSessionRuntime::all_off();
    runtime.pending_continuation = Some(ReservedContinuation { index: 1 });
    on_turn_idle(&mut runtime);
    assert!(runtime.pending_continuation.is_none());
    runtime.pending_continuation = Some(ReservedContinuation { index: 1 });
    on_new_user_input(&mut runtime);
    assert!(runtime.pending_continuation.is_none());
}

#[test]
fn late_original_after_synthetic_duplicate_is_not_forwarded() {
    let mut runtime = runtime_with(AblationProfile::E1);
    let mut telemetry = MemoryTelemetry::default();
    let identity = ToolCallLedger::identity("c1", "shell", r#"{"a":1}"#);
    assert!(matches!(
        runtime
            .hooks
            .admit_tool_call(identity.clone(), &mut telemetry),
        HookDecision::Handled(AdmitDecision::Execute)
    ));
    assert!(matches!(
        runtime.hooks.admit_tool_call(identity, &mut telemetry),
        HookDecision::Handled(AdmitDecision::SuppressDuplicate { .. })
    ));
    runtime
        .hooks
        .mark_tool_resolution("c1", ToolCallResolution::SyntheticDuplicate);
    let forwarded = complete_tool_call(&mut runtime, "c1", true);
    assert!(is_drop_tool_output(
        forwarded.as_ref().expect_err("late original must drop")
    ));
}

fn custom_call(call_id: &str, input: &str) -> ToolCall {
    ToolCall {
        tool_name: "apply_patch".into(),
        namespace: None,
        call_id: call_id.into(),
        payload: ToolPayload::Custom {
            input: input.into(),
        },
    }
}

fn shell_call(call_id: &str, cmd: &str) -> ToolCall {
    ToolCall {
        tool_name: "shell".into(),
        namespace: None,
        call_id: call_id.into(),
        payload: ToolPayload::Function {
            arguments: format!("{{\"cmd\":\"{cmd}\"}}"),
        },
    }
}

#[test]
fn custom_input_keeps_whitespace_and_is_not_json_canonicalized() {
    let mut runtime = runtime_with(AblationProfile::E1);
    let patch = "*** Begin Patch\n*** Update File: a.rs\n@@\n- old\n+ 新\n";
    assert!(admit_tool_call(&mut runtime, &custom_call("c1", patch)).is_ok());
    let stored = runtime.hooks.ledger.get("c1").unwrap();
    assert_eq!(stored.identity.tool_kind, ToolKind::Custom);
    assert_eq!(
        stored.identity.argument_fingerprint,
        ToolCallLedger::fingerprint_raw("apply_patch", ToolKind::Custom, "", patch)
    );
    let collapsed = "*** Begin Patch\n*** Update File: a.rs\n@@\n-old\n+新\n";
    assert_ne!(
        stored.identity.argument_fingerprint,
        ToolCallLedger::fingerprint_raw("apply_patch", ToolKind::Custom, "", collapsed)
    );
}

#[test]
fn distinct_patches_with_the_same_success_are_not_blocked() {
    let mut runtime = runtime_with(AblationProfile::E5);
    let success = "Success. Updated the following files:\nM src-tauri/src/commands/runtime.rs";
    for (index, patch) in [
        "*** Begin Patch\nA\n",
        "*** Begin Patch\nB\n",
        "*** Begin Patch\nC\n",
    ]
    .into_iter()
    .enumerate()
    {
        let call = custom_call(&format!("p{index}"), patch);
        assert!(admit_tool_call(&mut runtime, &call).is_ok());
        assert!(
            complete_tool_call_with_result(&mut runtime, &call.call_id, true, Some(success))
                .unwrap()
                .is_none()
        );
    }
    assert!(runtime.pending_repetition_notices.is_empty());
    assert_eq!(
        runtime
            .telemetry
            .count(EnhancedEventKind::ToolRepetitionObserved),
        0
    );
}

#[test]
fn twenty_five_distinct_ops_without_assistant_text_are_not_blocked() {
    let mut runtime = runtime_with(AblationProfile::E5);
    for index in 0..25 {
        let call = shell_call(&format!("op{index}"), &format!("step-{index}"));
        assert!(admit_tool_call(&mut runtime, &call).is_ok());
        assert!(
            complete_tool_call_with_result(&mut runtime, &call.call_id, true, Some("ok"))
                .unwrap()
                .is_none()
        );
    }
    assert!(runtime.pending_repetition_notices.is_empty());
    let plan = runtime.hooks.on_turn_stop(
        &TurnStopContext {
            natural_stop: true,
            assistant_final_text: None,
            ..TurnStopContext::default()
        },
        &mut runtime.telemetry,
    );
    assert!(matches!(
        plan,
        HookDecision::Handled(ref inner) if inner.decision == ContinuationDecision::AllowStop
    ));
}

#[test]
fn flags_off_scripted_path_does_not_inject_notice_or_text_continuation() {
    let mut runtime = runtime_with(AblationProfile::E5);
    let patch = "*** Begin Patch\nsame\n";
    let success = "ok";
    for index in 0..3 {
        let call = custom_call(&format!("same{index}"), patch);
        assert!(admit_tool_call(&mut runtime, &call).is_ok());
        let notice =
            complete_tool_call_with_result(&mut runtime, &call.call_id, true, Some(success))
                .unwrap();
        assert!(notice.is_none());
    }
    assert!(runtime.pending_repetition_notices.is_empty());
    assert_eq!(
        runtime
            .telemetry
            .count(EnhancedEventKind::ToolRepetitionNoticeAppended),
        0
    );
    let mut items = vec![output_item("same2")];
    apply_repetition_notices(&mut runtime, &mut items);
    assert_eq!(output_identity_and_text(&items[0]).unwrap().1, "ok");
    let plan = runtime.hooks.on_turn_stop(
        &TurnStopContext {
            intent_continuation_enabled: false,
            natural_stop: true,
            assistant_final_text: Some("I will continue immediately.".into()),
            ..TurnStopContext::default()
        },
        &mut runtime.telemetry,
    );
    assert!(matches!(
        plan,
        HookDecision::Handled(ref inner) if inner.decision == ContinuationDecision::AllowStop
    ));
}

#[test]
fn scripted_provider_path_admits_executes_observes_and_stops() {
    let mut runtime = runtime_with(AblationProfile::E1);
    let call = shell_call("wired", "echo hi");
    assert!(admit_tool_call(&mut runtime, &call).is_ok());
    assert!(complete_tool_call_with_result(&mut runtime, "wired", true, Some("hi")).is_ok());
    assert_eq!(
        runtime.telemetry.count(EnhancedEventKind::ToolCallAdmitted),
        1
    );
    assert_eq!(
        runtime
            .telemetry
            .count(EnhancedEventKind::ToolCallCompleted),
        1
    );
    on_new_user_input(&mut runtime);
    assert!(runtime.pending_repetition_notices.is_empty());
}

#[test]
fn out_of_order_identical_ops_inject_a_standalone_notice_not_the_late_middle_result() {
    let mut runtime = runtime_with(AblationProfile::E5);
    runtime.hooks.features.repetition_notice = true;
    let patch = "*** Begin Patch\nsame\n";
    let success = "ok";
    let c0 = custom_call("c0", patch);
    let c1 = custom_call("c1", patch);
    let c2 = custom_call("c2", patch);
    assert!(admit_tool_call(&mut runtime, &c0).is_ok());
    assert!(admit_tool_call(&mut runtime, &c1).is_ok());
    assert!(admit_tool_call(&mut runtime, &c2).is_ok());
    assert!(
        complete_tool_call_with_result(&mut runtime, "c0", true, Some(success))
            .unwrap()
            .is_none()
    );
    assert!(
        complete_tool_call_with_result(&mut runtime, "c2", true, Some(success))
            .unwrap()
            .is_none()
    );
    let middle = complete_tool_call_with_result(&mut runtime, "c1", true, Some(success)).unwrap();
    assert!(
        middle.is_none(),
        "must not attach the notice to the late-completing middle result"
    );
    assert!(runtime.pending_repetition_notices.is_empty());
    assert!(runtime.pending_standalone_repetition_notice);
    let mut items = vec![output_item("c0"), output_item("c2"), output_item("c1")];
    apply_repetition_notices(&mut runtime, &mut items);
    assert!(!runtime.pending_standalone_repetition_notice);
    assert_eq!(output_identity_and_text(&items[2]).unwrap().1, "ok");
    assert!(
        matches!(
            items.last(),
            Some(ResponseItem::Message { content, role, .. })
                if role == "user" && content_text(content) == REPETITION_NOTICE
        ),
        "standalone notice must be a separate model-visible message: {:?}",
        items.last()
    );
    assert_eq!(
        runtime
            .telemetry
            .count(EnhancedEventKind::ToolRepetitionNoticeAppended),
        1
    );
}

#[test]
fn the_last_of_three_identical_results_bears_the_notice() {
    let mut runtime = runtime_with(AblationProfile::E1);
    runtime.hooks.features.repetition_notice = true;
    for index in 0..3 {
        let call = custom_call(&format!("r{index}"), "same");
        assert!(admit_tool_call(&mut runtime, &call).is_ok());
        let notice =
            complete_tool_call_with_result(&mut runtime, &call.call_id, true, Some("ok")).unwrap();
        assert_eq!(notice.is_some(), index == 2);
    }
    assert!(runtime.pending_repetition_notices.contains("r2"));
    let mut items = vec![output_item("r1"), output_item("r2")];
    apply_repetition_notices(&mut runtime, &mut items);
    assert_eq!(output_identity_and_text(&items[0]).unwrap().1, "ok");
    let text = output_identity_and_text(&items[1]).unwrap().1;
    assert_eq!(text, format!("ok\n{REPETITION_NOTICE}"));
    apply_repetition_notices(&mut runtime, &mut items);
    assert_eq!(output_identity_and_text(&items[1]).unwrap().1, text);
    on_turn_idle(&mut runtime);
    assert!(!runtime.pending_repetition_notices.contains("r2"));
}

#[test]
fn a_notice_that_can_be_seen_is_not_repeated() {
    let mut runtime = EnhancedSessionRuntime::all_off();
    runtime.pending_standalone_repetition_notice = true;
    let mut items = vec![output_with("c", format!("x {REPETITION_NOTICE}"))];
    apply_repetition_notices(&mut runtime, &mut items);
    assert_eq!(items.len(), 1);
    assert!(!runtime.pending_standalone_repetition_notice);
}

#[test]
fn a_duplicate_is_answered_once_and_then_dropped() {
    let mut runtime = runtime_with(AblationProfile::E1);
    let call = shell_call("c1", "ls");
    assert!(admit_tool_call(&mut runtime, &call).is_ok());
    assert!(matches!(
        admit_tool_call(&mut runtime, &call),
        Err(FunctionCallError::RespondToModel(message)) if message.contains("c1")
    ));
    let error = complete_tool_call(&mut runtime, "c1", true).unwrap_err();
    assert!(is_drop_tool_output(&error));

    let mut runtime = runtime_with(AblationProfile::E1);
    assert!(admit_tool_call(&mut runtime, &call).is_ok());
    assert!(complete_tool_call(&mut runtime, "c1", false).is_ok());
    assert_eq!(
        runtime.hooks.ledger.get("c1").unwrap().resolution,
        ToolCallResolution::Failed
    );
    let error = admit_tool_call(&mut runtime, &call).unwrap_err();
    assert!(is_drop_tool_output(&error));
    assert_eq!(error, drop_tool_output_error());
    assert!(matches!(
        admit_tool_call(&mut runtime, &shell_call("c1", "pwd")),
        Err(FunctionCallError::Fatal(_))
    ));
}

#[test]
fn with_the_port_off_nothing_is_held_back() {
    let mut runtime = EnhancedSessionRuntime::all_off();
    let call = shell_call("c1", "ls");
    for _ in 0..2 {
        assert!(admit_tool_call(&mut runtime, &call).is_ok());
        assert_eq!(
            complete_tool_call_with_result(&mut runtime, "c1", true, Some("x")),
            Ok(None)
        );
    }
    assert!(runtime.hooks.ledger.is_empty());
    assert!(runtime.telemetry.events.is_empty());
    let mut items = vec![output_with("c1", "x".repeat(9_000))];
    let before = items.clone();
    assert_eq!(
        apply_pressure_to_prompt(&mut runtime, &mut items, 100, 85, 10),
        PressureSeam::DeferToUpstream
    );
    apply_context_projections(&mut runtime, &mut items);
    clear_context_projections_after_compaction(&mut runtime);
    assert_eq!(items, before);
    assert!(matches!(
        plan_overflow_for_prompt(&mut runtime, &items, 0, 100, false),
        OverflowSeam::DeferToUpstream
    ));
    assert_eq!(maybe_continue_turn(&mut runtime, &items, &None, false, false, None), None);
    assert!(runtime.telemetry.events.is_empty());
}

#[test]
fn identities_follow_the_kind_of_a_call() {
    let mut call = shell_call("c1", "ls");
    call.namespace = Some(" mcp ".into());
    let identity = identity_from_call(&call);
    assert_eq!(identity.namespace, "mcp");
    assert_eq!(
        identity.argument_fingerprint,
        text_sha256("function\nmcp\nshell\n{\"cmd\":\"ls\"}")
    );
    let search = ToolCall {
        tool_name: "find".into(),
        namespace: None,
        call_id: "c2".into(),
        payload: ToolPayload::ToolSearch { query: "x".into() },
    };
    assert_eq!(
        identity_from_call(&search).argument_fingerprint,
        text_sha256("tool_search\n\nfind\n{\"query\":\"x\"}")
    );
}

#[test]
fn items_make_a_surface() {
    let message = |role: &str| ResponseItem::Message {
        role: role.into(),
        content: vec![
            ContentItem::InputText { text: "a".into() },
            ContentItem::Other { payload: "picture".into() },
            ContentItem::OutputText { text: "b".into() },
        ],
    };
    let items = vec![
        message("assistant"),
        message("system"),
        message("developer"),
        message("someone"),
        ResponseItem::Other { payload: "{}".into() },
        call_item("c1", "{}"),
        ResponseItem::CustomToolCall {
            call_id: "c2".into(),
            name: "apply_patch".into(),
            input: "p".into(),
        },
        ResponseItem::CustomToolCallOutput {
            call_id: "c2".into(),
            name: None,
            output: OutputPayload {
                body: OutputBody::Content { text: Some("done".into()) },
                success: None,
            },
        },
        ResponseItem::FunctionCallOutput {
            call_id: None,
            name: None,
            output: OutputPayload::from_text("lost".into()),
        },
    ];
    let text = || "a\nb".to_string();
    let surface = response_items_to_surface(&items);
    assert_eq!(surface.generation, 0);
    assert_eq!(
        surface.items,
        vec![
            SurfaceItem::Assistant { text: text() },
            SurfaceItem::System { text: text() },
            SurfaceItem::Developer { text: text() },
            SurfaceItem::User { text: text() },
            SurfaceItem::ToolCall {
                call_id: "c1".into(),
                tool_name: "shell".into(),
                tool_type: "function".into(),
                arguments: "{}".into(),
            },
            SurfaceItem::ToolCall {
                call_id: "c2".into(),
                tool_name: "apply_patch".into(),
                tool_type: "custom".into(),
                arguments: "p".into(),
            },
            SurfaceItem::ToolResult {
                call_id: "c2".into(),
                tool_name: "".into(),
                tool_type: "custom".into(),
                blocks: vec![ContentBlock { kind: "text".into(), text: Some("done".into()) }],
            },
            SurfaceItem::ToolResult {
                call_id: "".into(),
                tool_name: "".into(),
                tool_type: "function".into(),
                blocks: vec![ContentBlock { kind: "text".into(), text: Some("lost".into()) }],
            },
        ]
    );
    let counts = vec![1, 2, 3, 4, 5, 6, -7, 8, 9];
    assert_eq!(surface_token_estimates(&items, &counts), vec![1, 2, 3, 4, 6, 0, 8, 9]);
    let estimated = response_items_to_estimated_surface(&items, &counts);
    assert_eq!(estimated.surface, response_items_to_surface(&items));
    assert_eq!(estimated.item_token_estimates, vec![1, 2, 3, 4, 6, 0, 8, 9]);
}

#[test]
fn outputs_take_the_texts_of_a_surface() {
    let mut items = vec![output_item("c1"), output_item("c2")];
    let mut surface = response_items_to_surface(&vec![output_item("c1"), output_item("c1")]);
    if let SurfaceItem::ToolResult { blocks, .. } = &mut surface.items[1] {
        blocks[0].text = Some("one".into());
        blocks.push(ContentBlock { kind: "image".into(), text: None });
        blocks.push(ContentBlock { kind: "text".into(), text: Some("two".into()) });
    }
    apply_surface_to_items(&mut items, &surface);
    assert_eq!(output_identity_and_text(&items[0]).unwrap().1, "one\ntwo");
    assert_eq!(output_identity_and_text(&items[1]).unwrap().1, "ok");
}

#[test]
fn pressure_is_relieved_and_remembered() {
    let mut runtime = runtime_with(AblationProfile::E2);
    let original = vec![call_item("c1", "{}"), output_with("c1", "y".repeat(8_000))];
    let mut items = original.clone();
    assert_eq!(
        apply_pressure_to_prompt(&mut runtime, &mut items, 0, 0, 10),
        PressureSeam::DeferToUpstream
    );
    assert_eq!(items, original);
    assert_eq!(
        apply_pressure_to_prompt(&mut runtime, &mut items, 2_000, 1_700, 1_900),
        PressureSeam::SkipNativeCompact
    );
    let text = output_identity_and_text(&items[1]).unwrap().1;
    assert_eq!(
        text,
        format!(
            "{}\n[... omitted 6800 characters ...]\n{}",
            "y".repeat(400),
            "y".repeat(800)
        )
    );
    assert_eq!(
        runtime.context_projections.replacement("c1", &"y".repeat(8_000)),
        Some(text.as_str())
    );
    assert!(runtime.last_surface.is_some());
    assert_eq!(
        apply_pressure_to_prompt(&mut runtime, &mut items, 2_000, 10, 20),
        PressureSeam::RunNativeCompact
    );
}

#[test]
fn restored_projections_are_reported_once() {
    let mut first = runtime_with(AblationProfile::E2);
    first.context_projections.record("c1", "large original", "small");
    let durable = first.context_projections.durable();
    let mut runtime = EnhancedSessionRuntime::load(AblationProfile::E2.features(), Some(durable));
    for _ in 0..2 {
        let mut items = vec![output_with("c1", "large original".into())];
        apply_context_projections(&mut runtime, &mut items);
        assert_eq!(output_identity_and_text(&items[0]).unwrap().1, "small");
    }
    assert_eq!(runtime.telemetry.count(EnhancedEventKind::ContextProjectionApplied), 2);
    assert_eq!(runtime.telemetry.count(EnhancedEventKind::ContextProjectionRestored), 1);
    let applied = &runtime.telemetry.events[1];
    assert_eq!(applied.fields.call_id_hash, Some(text_sha256("c1")));
    assert_eq!(applied.fields.chars_removed, Some(9));
    clear_context_projections_after_compaction(&mut runtime);
    clear_context_projections_after_compaction(&mut runtime);
    assert_eq!(runtime.telemetry.count(EnhancedEventKind::ContextProjectionCleared), 1);
}

#[test]
fn an_overflow_that_pruning_cannot_help_needs_compaction() {
    let mut runtime = runtime_with(AblationProfile::E2);
    let items = vec![ResponseItem::Message {
        role: "user".into(),
        content: vec![ContentItem::InputText { text: "x".repeat(20_000) }],
    }];
    let OverflowSeam::NeedsNativeCompact { before } =
        plan_overflow_for_prompt(&mut runtime, &items, forced_trigger(), 1_000, false)
    else {
        panic!("nothing to prune");
    };
    let compacted = vec![ResponseItem::Message {
        role: "user".into(),
        content: vec![ContentItem::InputText { text: "summary".into() }],
    }];
    assert!(matches!(
        decide_overflow_retry(&mut runtime, &before, &items, false),
        OverflowSeam::PreserveOriginalError
    ));
    assert!(matches!(
        decide_overflow_retry(&mut runtime, &before, &compacted, true),
        OverflowSeam::Cancelled
    ));
    assert!(matches!(
        decide_overflow_retry(&mut runtime, &before, &compacted, false),
        OverflowSeam::Retry { pruned } if pruned == compacted
    ));
    assert!(matches!(
        decide_overflow_retry(&mut runtime, &before, &compacted, false),
        OverflowSeam::PreserveOriginalError
    ));
    on_assistant_success(&mut runtime);
    assert_eq!(runtime.hooks.overflow_retries_used, 0);
}

#[test]
fn a_continuation_is_started_committed_or_released() {
    let mut runtime = runtime_with(AblationProfile::E3);
    let items = vec![
        plan_call_item("plan-1", "in_progress"),
        plan_output_item("plan-1", true),
    ];
    let plan = decoded_plan(&items);
    let reserved = maybe_continue_turn(&mut runtime, &items, &plan, false, false, None).unwrap();
    assert_eq!(reserved, ReservedContinuation { index: 1 });
    assert!(!start_continuation(&mut runtime, reserved, false));
    assert!(runtime.pending_continuation.is_none());
    let reserved = maybe_continue_turn(&mut runtime, &items, &plan, false, false, None).unwrap();
    assert!(start_continuation(&mut runtime, reserved, true));
    release_pending_continuation(&mut runtime);
    assert_eq!(runtime.hooks.continuation.used, 0);
    for used in 1..=2 {
        let reserved =
            maybe_continue_turn(&mut runtime, &items, &plan, false, false, None).unwrap();
        assert!(start_continuation(&mut runtime, reserved, true));
        commit_pending_continuation(&mut runtime);
        assert_eq!(runtime.hooks.continuation.used, used);
        commit_pending_continuation(&mut runtime);
        assert_eq!(runtime.hooks.continuation.used, used);
    }
    assert_eq!(maybe_continue_turn(&mut runtime, &items, &plan, false, false, None), None);
    assert_eq!(maybe_continue_turn(&mut runtime, &items, &plan, true, false, None), None);
    on_new_user_input(&mut runtime);
    assert_eq!(runtime.hooks.continuation.used, 0);
}

#[test]
fn a_later_plan_that_was_refused_hides_an_accepted_one() {
    assert!(unfinished(vec![
        plan_call_item("plan-1", "pending"),
        plan_output_item("plan-1", true),
        plan_call_item("plan-2", "pending"),
        plan_output_item("plan-2", false),
    ])
    .is_empty());
    let items = vec![call_item("c", "{}")];
    assert_eq!(accepted_plan_arguments(&items), None);
    assert!(unfinished_from_items(&items, &Some(vec![StepStatus::Pending])).is_empty());
}

#[test]
fn the_ledger_is_made_from_the_history_once() {
    let mut runtime = runtime_with(AblationProfile::E1);
    assert!(needs_ledger_restore(&runtime));
    let history = vec![
        ResponseItem::CustomToolCall {
            call_id: "p".into(),
            name: "apply_patch".into(),
            input: "patch".into(),
        },
        ResponseItem::CustomToolCallOutput {
            call_id: "p".into(),
            name: None,
            output: OutputPayload {
                body: OutputBody::Text("failed".into()),
                success: Some(false),
            },
        },
    ];
    restore_ledger_if_needed(&mut runtime, &history);
    assert!(!needs_ledger_restore(&runtime));
    let known = runtime.hooks.ledger.get("p").unwrap();
    assert_eq!(known.resolution, ToolCallResolution::Failed);
    assert!(known.original_result_delivered);
    restore_ledger_if_needed(&mut runtime, &vec![]);
    assert!(runtime.hooks.ledger.get("p").is_some());
    assert!(admit_tool_call(&mut runtime, &custom_call("p", "patch")).is_err());
    let mut off = EnhancedSessionRuntime::all_off();
    assert!(!needs_ledger_restore(&off));
    restore_ledger_if_needed(&mut off, &history);
    assert!(off.hooks.ledger.is_empty());
}

#[test]
fn collisions_behind_the_first_call_stay() {
    let runtime = runtime_with(AblationProfile::E1);
    let mut items = vec![
        call_item("c1", "1"),
        call_item("c1", "2"),
        call_item("c1", "1"),
        call_item("c1", "2"),
        call_item("c2", "1"),
    ];
    remove_replayed_tool_calls_from_prompt(&runtime, &mut items);
    assert_eq!(
        items,
        vec![
            call_item("c1", "1"),
            call_item("c1", "2"),
            call_item("c1", "2"),
            call_item("c2", "1"),
        ]
    );
    let once = items.clone();
    remove_replayed_tool_calls_from_prompt(&runtime, &mut items);
    assert_eq!(items, once);
}
