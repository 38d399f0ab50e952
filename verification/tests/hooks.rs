use codex_enhanced::bounded_continuation::{
    commit_continuation, plan_turn_stop, release_continuation, AutoContinuationBudget,
    ContinuationCommitError, ContinuationDecision, ReservedContinuation, TurnStopContext,
    UnfinishedSignal, CONTINUE_NUDGE, MAX_AUTO_CONTINUATIONS,
};
use codex_enhanced::config::AblationProfile;
use codex_enhanced::context_pruner::{
    ContentBlock, ModelVisibleSurface, SurfaceItem, ToolResultPrunePolicy,
};
use codex_enhanced::context_recovery::{
    plan_context_pressure, plan_overflow_retry, CompactDecision, OverflowAttempt,
    OverflowDecision, OverflowPlan, MAX_CONTEXT_OVERFLOW_RETRIES,
};
use codex_enhanced::hooks::{EnhancedTurnHooks, HookDecision};
use codex_enhanced::telemetry::{EnhancedEventKind, MemoryTelemetry};
use codex_enhanced::tool_reliability::{
    AdmitDecision, LateResultDecision, ToolCallLedger, ToolCallResolution,
};

#[test]
fn e0_is_strict_defer_to_upstream() {
    let mut hooks = EnhancedTurnHooks::new(AblationProfile::E0.features());
    let mut telemetry = MemoryTelemetry::default();
    let identity = ToolCallLedger::identity("c", "shell", r#"{"a":1}"#);
    assert_eq!(
        hooks.admit_tool_call(identity.clone(), &mut telemetry),
        HookDecision::DeferToUpstream
    );
    assert_eq!(
        hooks.admit_tool_call(identity, &mut telemetry),
        HookDecision::DeferToUpstream
    );
    assert!(hooks.ledger.is_empty());
    assert!(telemetry.events.is_empty());
    assert!(matches!(
        hooks.plan_pressure(&ModelVisibleSurface::default(), 85, 10, &mut telemetry),
        HookDecision::DeferToUpstream
    ));
}

#[test]
fn e1_suppresses_duplicates() {
    let mut hooks = EnhancedTurnHooks::new(AblationProfile::E1.features());
    let mut telemetry = MemoryTelemetry::default();
    let identity = ToolCallLedger::identity("c", "shell", r#"{"a":1}"#);
    hooks.admit_tool_call(identity.clone(), &mut telemetry);
    assert!(matches!(
        hooks.admit_tool_call(identity, &mut telemetry),
        HookDecision::Handled(AdmitDecision::SuppressDuplicate { .. })
    ));
}

#[test]
fn overflow_budget_resets_on_new_user_input() {
    let mut hooks = EnhancedTurnHooks::new(AblationProfile::E2.features());
    let mut telemetry = MemoryTelemetry::default();
    let before = ModelVisibleSurface {
        generation: 1,
        items: vec![],
    };
    let after = ModelVisibleSurface {
        generation: 2,
        items: vec![],
    };
    hooks.overflow_retries_used = 1;
    let refused = hooks.plan_overflow(&before, &after, false, &mut telemetry);
    assert!(matches!(
        refused,
        HookDecision::Handled(OverflowPlan {
            decision: OverflowDecision::PreserveOriginalError,
            ..
        })
    ));
    hooks.on_new_user_input();
    assert_eq!(hooks.overflow_retries_used, 0);
    assert_eq!(hooks.continuation.used, 0);
}

#[test]
fn overflow_budget_resets_after_successful_assistant_turn() {
    let mut hooks = EnhancedTurnHooks::new(AblationProfile::E2.features());
    hooks.overflow_retries_used = 1;
    hooks.on_assistant_success();
    assert_eq!(hooks.overflow_retries_used, 0);
    hooks.overflow_retries_used = 1;
    hooks.on_turn_idle();
    assert_eq!(hooks.overflow_retries_used, 0);
}

#[test]
fn every_hook_is_silent_while_its_port_is_off() {
    let mut hooks = EnhancedTurnHooks::new(AblationProfile::E0.features());
    let mut telemetry = MemoryTelemetry::default();
    let surface = ModelVisibleSurface::default();
    assert_eq!(
        hooks.complete_original_tool_result("c"),
        HookDecision::DeferToUpstream
    );
    assert_eq!(hooks.ingest_late_tool_result("c"), HookDecision::DeferToUpstream);
    hooks.mark_tool_resolution("c", ToolCallResolution::Executed);
    assert!(matches!(
        hooks.plan_overflow(&surface, &surface, false, &mut telemetry),
        HookDecision::DeferToUpstream
    ));
    let context = TurnStopContext {
        unfinished: vec![UnfinishedSignal::NativePlanIncomplete],
        ..TurnStopContext::default()
    };
    assert!(matches!(
        hooks.on_turn_stop(&context, &mut telemetry),
        HookDecision::DeferToUpstream
    ));
    assert!(hooks.ledger.is_empty());
    assert_eq!(hooks.continuation, AutoContinuationBudget::default());
    assert!(telemetry.events.is_empty());
}

#[test]
fn an_overflow_is_retried_once() {
    assert_eq!(MAX_CONTEXT_OVERFLOW_RETRIES, 1);
    let mut hooks = EnhancedTurnHooks::new(AblationProfile::E2.features());
    let mut telemetry = MemoryTelemetry::default();
    let before = ModelVisibleSurface { generation: 1, items: vec![] };
    let after = ModelVisibleSurface { generation: 2, items: vec![] };
    assert!(matches!(
        hooks.plan_overflow(&before, &after, false, &mut telemetry),
        HookDecision::Handled(OverflowPlan {
            decision: OverflowDecision::Retry { retry_index: 1 },
            ..
        })
    ));
    assert_eq!(hooks.overflow_retries_used, 1);
    assert_eq!(telemetry.events[0].fields.retry_index, Some(1));
    hooks.plan_overflow(&before, &after, false, &mut telemetry);
    assert_eq!(telemetry.count(EnhancedEventKind::ContextOverflowRetry), 1);
    assert_eq!(telemetry.count(EnhancedEventKind::ContextOverflowRetryRefused), 1);
}

#[test]
fn an_overflow_without_progress_keeps_its_error() {
    let before = ModelVisibleSurface { generation: 2, items: vec![] };
    let attempt = OverflowAttempt { generation_before: 2, retries_used: 0, cancelled: false };
    let plan = plan_overflow_retry(attempt, &before, &before);
    assert_eq!(plan.decision, OverflowDecision::PreserveOriginalError);
    let cancelled = OverflowAttempt { cancelled: true, ..attempt };
    let after = ModelVisibleSurface { generation: 3, items: vec![] };
    let plan = plan_overflow_retry(cancelled, &before, &after);
    assert_eq!(plan.decision, OverflowDecision::Cancelled);
    assert!(plan.events.is_empty());
}

fn long_result() -> ModelVisibleSurface {
    ModelVisibleSurface {
        generation: 0,
        items: vec![SurfaceItem::ToolResult {
            call_id: "c1".into(),
            tool_name: "read".into(),
            tool_type: "function".into(),
            blocks: vec![ContentBlock { kind: "text".into(), text: Some("x".repeat(8_000)) }],
        }],
    }
}

#[test]
fn compaction_is_skipped_where_pruning_is_enough() {
    let surface = long_result();
    let plan = plan_context_pressure(&surface, ToolResultPrunePolicy::default(), 1_000, 2_000);
    assert_eq!(plan.compact, CompactDecision::Skip);
    assert_eq!(plan.events.len(), 3);
    assert_eq!(plan.events[2].kind, EnhancedEventKind::ContextCompactionAvoided);
    let plan = plan_context_pressure(
        &surface,
        ToolResultPrunePolicy::default(),
        1_000,
        plan.prune.after_token_estimate,
    );
    assert_eq!(plan.compact, CompactDecision::RunNativeCodexLocalCompact);
    assert_eq!(plan.events.len(), 2);
    let plan = plan_context_pressure(&surface, ToolResultPrunePolicy::default(), 9_000, 10_000);
    assert_eq!(plan.compact, CompactDecision::Skip);
    assert!(plan.events.is_empty());
}

fn unfinished() -> TurnStopContext {
    TurnStopContext {
        natural_stop: true,
        unfinished: vec![UnfinishedSignal::NativePlanIncomplete],
        ..TurnStopContext::default()
    }
}

#[test]
fn a_turn_is_continued_twice_and_no_more() {
    assert_eq!(MAX_AUTO_CONTINUATIONS, 2);
    let mut budget = AutoContinuationBudget::default();
    for index in 1..=2 {
        let plan = plan_turn_stop(&mut budget, &unfinished());
        assert_eq!(plan.decision, ContinuationDecision::Continue { index });
        assert_eq!(plan.reservation, Some(ReservedContinuation { index }));
        assert_eq!(plan.events[0].fields.continuation_index, Some(index));
        assert_eq!(commit_continuation(&mut budget, plan.reservation.unwrap()), Ok(()));
        assert_eq!(budget.used, index);
    }
    let plan = plan_turn_stop(&mut budget, &unfinished());
    assert_eq!(plan.decision, ContinuationDecision::Exhausted);
    assert_eq!(plan.events[0].kind, EnhancedEventKind::ContinuationExhausted);
    budget.reset_for_user_input();
    let plan = plan_turn_stop(&mut budget, &unfinished());
    assert_eq!(plan.decision, ContinuationDecision::Continue { index: 1 });
}

#[test]
fn a_failed_request_consumes_no_continuation() {
    let mut budget = AutoContinuationBudget::default();
    let first = plan_turn_stop(&mut budget, &unfinished());
    release_continuation(&mut budget);
    assert_eq!(budget, AutoContinuationBudget::default());
    assert_eq!(
        commit_continuation(&mut budget, first.reservation.unwrap()),
        Err(ContinuationCommitError::NotReserved)
    );
    let second = plan_turn_stop(&mut budget, &unfinished());
    assert_eq!(second.decision, first.decision);
}

#[test]
fn nothing_goes_on_without_a_reason() {
    let mut budget = AutoContinuationBudget::default();
    let allow = |budget: &mut AutoContinuationBudget, context: TurnStopContext| {
        plan_turn_stop(budget, &context).decision == ContinuationDecision::AllowStop
    };
    assert!(allow(&mut budget, TurnStopContext::default()));
    assert!(allow(&mut budget, TurnStopContext { cancelled: true, ..unfinished() }));
    budget.used = 2;
    assert!(allow(&mut budget, TurnStopContext { user_steer_pending: true, ..unfinished() }));
    assert_eq!(budget, AutoContinuationBudget::default());
}

#[test]
fn a_stated_intent_counts_only_with_its_switch() {
    let context = TurnStopContext {
        natural_stop: true,
        assistant_final_text: Some("Done so far. I will continue immediately.\n".into()),
        ..TurnStopContext::default()
    };
    let mut budget = AutoContinuationBudget::default();
    assert_eq!(
        plan_turn_stop(&mut budget, &context).decision,
        ContinuationDecision::AllowStop
    );
    let enabled = TurnStopContext { intent_continuation_enabled: true, ..context.clone() };
    assert_eq!(
        plan_turn_stop(&mut budget, &enabled).decision,
        ContinuationDecision::Continue { index: 1 }
    );
    let other = TurnStopContext {
        assistant_final_text: Some("I will continue immediately. Or not.".into()),
        ..enabled
    };
    assert_eq!(
        plan_turn_stop(&mut budget, &other).decision,
        ContinuationDecision::AllowStop
    );
    assert!(CONTINUE_NUDGE.starts_with("Continue the unfinished"));
}

#[test]
fn a_written_ledger_is_restored() {
    let mut ledger = ToolCallLedger::new();
    ledger.admit_call(ToolCallLedger::identity("c1", "shell", "{}"));
    let record = ledger.get("c1").unwrap().clone();
    let mut hooks = EnhancedTurnHooks::new(AblationProfile::E1.features());
    assert!(hooks.restore_ledger(vec![record.clone()]).is_ok());
    assert_eq!(
        hooks.ingest_late_tool_result("c1"),
        HookDecision::Handled(LateResultDecision::Accept)
    );
    assert!(hooks.restore_ledger(vec![record.clone(), record]).is_err());
    assert!(!hooks.ledger.is_empty());
}

#[test]
fn with_every_switch_off_a_written_ledger_is_not_restored() {
    let mut ledger = ToolCallLedger::new();
    ledger.admit_call(ToolCallLedger::identity("c1", "shell", "{}"));
    let record = ledger.get("c1").unwrap().clone();
    let mut hooks = EnhancedTurnHooks::new(AblationProfile::E0.features());
    assert!(hooks.restore_ledger(vec![record.clone()]).is_ok());
    assert!(hooks.ledger.is_empty());
    assert!(hooks.restore_ledger(vec![record.clone(), record.clone()]).is_err());
    assert!(hooks.ledger.is_empty());
    for profile in [AblationProfile::E1, AblationProfile::E2, AblationProfile::E3] {
        let mut hooks = EnhancedTurnHooks::new(profile.features());
        assert!(hooks.restore_ledger(vec![record.clone()]).is_ok());
        assert_eq!(hooks.ledger.get("c1"), Some(&record));
    }
}

#[test]
fn with_every_switch_off_no_budget_changes() {
    let mut hooks = EnhancedTurnHooks::new(AblationProfile::E0.features());
    let budget = AutoContinuationBudget { used: 1, reserved: Some(2) };
    hooks.continuation = budget;
    hooks.overflow_retries_used = 1;
    hooks.on_new_user_input();
    hooks.on_assistant_success();
    hooks.on_turn_idle();
    hooks.release_continuation();
    assert_eq!(hooks.commit_continuation(ReservedContinuation { index: 2 }), Ok(()));
    assert_eq!(
        hooks.commit_continuation(ReservedContinuation { index: 1 }),
        Err(ContinuationCommitError::NotReserved)
    );
    assert_eq!(hooks.continuation, budget);
    assert_eq!(hooks.overflow_retries_used, 1);

    let mut hooks = EnhancedTurnHooks::new(AblationProfile::E1.features());
    hooks.continuation = budget;
    hooks.overflow_retries_used = 1;
    hooks.on_assistant_success();
    assert_eq!(hooks.overflow_retries_used, 0);
    assert_eq!(hooks.commit_continuation(ReservedContinuation { index: 2 }), Ok(()));
    assert_eq!(hooks.continuation, AutoContinuationBudget { used: 2, reserved: None });
    hooks.on_new_user_input();
    assert_eq!(hooks.continuation, AutoContinuationBudget::default());
}
