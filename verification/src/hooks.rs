//! The places at which the agent loop asks the runtime what to do.

use crate::bounded_continuation;
use crate::bounded_continuation::{
    AutoContinuationBudget, ContinuationCommitError, ContinuationPlan, ReservedContinuation,
    TurnStopContext,
};
use crate::config::EnhancedRuntimeFeatures;
use crate::context_pruner::{ModelVisibleSurface, ToolResultPrunePolicy};
use crate::context_recovery;
use crate::context_recovery::{OverflowAttempt, OverflowDecision, OverflowPlan, PressurePlan};
use crate::telemetry::MemoryTelemetry;
use crate::tool_observation::{
    ObservationDecision, ObservationInput, ObservationLog, ObservationLogView,
};
use crate::tool_reliability;
use crate::tool_reliability::{
    AdmitDecision, HandledToolCall, HandledToolCallView, LateResultDecision, LedgerError,
    ProviderToolCallIdentity, ToolCallLedger, ToolCallLedgerView, ToolCallResolution,
};
use vstd::prelude::*;

verus! {

/// What a hook decided. Where its feature is off it decides nothing, and the
/// caller goes on as if there were no hook.
#[derive(Debug, Clone, PartialEq, Eq)]
pub enum HookDecision<T> {
    DeferToUpstream,
    Handled(T),
}

impl<T: DeepView> DeepView for HookDecision<T> {
    type V = HookDecision<T::V>;

    open spec fn deep_view(&self) -> HookDecision<T::V> {
        match self {
            HookDecision::DeferToUpstream => HookDecision::DeferToUpstream,
            HookDecision::Handled(value) => HookDecision::Handled(value.deep_view()),
        }
    }
}

/// The state behind the hooks. With every feature off no hook decides anything,
/// and none changes a ledger, a budget or the telemetry.
#[derive(Debug)]
pub struct EnhancedTurnHooks {
    pub features: EnhancedRuntimeFeatures,
    pub ledger: ToolCallLedger,
    pub continuation: AutoContinuationBudget,
    pub prune_policy: ToolResultPrunePolicy,
    pub overflow_retries_used: u8,
    pub observations: ObservationLog,
}

/// The model of [`EnhancedTurnHooks`].
#[verifier::ext_equal]
pub struct EnhancedTurnHooksView {
    pub features: EnhancedRuntimeFeatures,
    pub ledger: ToolCallLedgerView,
    pub continuation: AutoContinuationBudget,
    pub prune_policy: ToolResultPrunePolicy,
    pub overflow_retries_used: u8,
    pub observations: ObservationLogView,
}

impl View for EnhancedTurnHooks {
    type V = EnhancedTurnHooksView;

    open spec fn view(&self) -> EnhancedTurnHooksView {
        EnhancedTurnHooksView {
            features: self.features,
            ledger: self.ledger.deep_view(),
            continuation: self.continuation,
            prune_policy: self.prune_policy,
            overflow_retries_used: self.overflow_retries_used,
            observations: self.observations.deep_view(),
        }
    }
}

impl DeepView for EnhancedTurnHooks {
    type V = EnhancedTurnHooksView;

    open spec fn deep_view(&self) -> EnhancedTurnHooksView {
        self@
    }
}

impl Clone for EnhancedTurnHooks {
    fn clone(&self) -> (r: Self)
        ensures
            r@ == self@,
    {
        EnhancedTurnHooks {
            features: self.features,
            ledger: self.ledger.clone(),
            continuation: self.continuation,
            prune_policy: self.prune_policy,
            overflow_retries_used: self.overflow_retries_used,
            observations: self.observations.clone(),
        }
    }
}

impl EnhancedTurnHooksView {
    /// The hooks of a session that begins.
    pub open spec fn fresh(features: EnhancedRuntimeFeatures) -> Self {
        EnhancedTurnHooksView {
            features,
            ledger: ToolCallLedgerView::empty(),
            continuation: AutoContinuationBudget::fresh(),
            prune_policy: ToolResultPrunePolicy::standard(),
            overflow_retries_used: 0,
            observations: ObservationLogView::empty(),
        }
    }

    /// Whether any switch is on.
    pub open spec fn any_on(self) -> bool {
        self.features != EnhancedRuntimeFeatures::ports(false, false, false)
    }

    /// The hooks with other budgets, if any switch is on. With every switch off
    /// the budgets stay as they are.
    pub open spec fn with_budgets(
        self,
        continuation: AutoContinuationBudget,
        overflow_retries_used: u8,
    ) -> Self {
        if self.any_on() {
            EnhancedTurnHooksView { continuation, overflow_retries_used, ..self }
        } else {
            self
        }
    }

    /// The hooks once the user has spoken.
    pub open spec fn after_user_input(self) -> Self {
        self.with_budgets(AutoContinuationBudget::fresh(), 0)
    }

    /// The hooks once the model has answered.
    pub open spec fn after_success(self) -> Self {
        self.with_budgets(self.continuation, 0)
    }

    /// The hooks once the turn is over.
    pub open spec fn after_idle(self) -> Self {
        self.with_budgets(bounded_continuation::released_budget(self.continuation), 0)
    }

    /// The hooks once a continuation counts as used.
    pub open spec fn after_commit(self, reserved: ReservedContinuation) -> Self {
        self.with_budgets(
            bounded_continuation::committed_budget(self.continuation, reserved),
            self.overflow_retries_used,
        )
    }

    /// The hooks once a continuation that was reserved is given up.
    pub open spec fn after_release(self) -> Self {
        self.with_budgets(
            bounded_continuation::released_budget(self.continuation),
            self.overflow_retries_used,
        )
    }

    /// The hooks once a ledger that was written down came in.
    pub open spec fn after_restore(self, records: Seq<HandledToolCallView>) -> Self {
        let ledger = ToolCallLedgerView { entries: records };
        if self.any_on() && ledger.distinct() {
            EnhancedTurnHooksView { ledger, ..self }
        } else {
            self
        }
    }

    /// What is known of a request that overflowed.
    pub open spec fn attempt(self, generation: u64, cancelled: bool) -> OverflowAttempt {
        OverflowAttempt {
            generation_before: generation,
            retries_used: self.overflow_retries_used,
            cancelled,
        }
    }
}

impl EnhancedTurnHooks {
    /// The hooks of a session that begins.
    pub fn new(features: EnhancedRuntimeFeatures) -> (r: Self)
        ensures
            r@ == EnhancedTurnHooksView::fresh(features),
    {
        EnhancedTurnHooks {
            features,
            ledger: ToolCallLedger::new(),
            continuation: AutoContinuationBudget::default(),
            prune_policy: ToolResultPrunePolicy::default(),
            overflow_retries_used: 0,
            observations: ObservationLog::new(),
        }
    }

    /// The user has spoken: all budgets start anew.
    pub fn on_new_user_input(&mut self)
        ensures
            final(self)@ == old(self)@.after_user_input(),
    {
        if self.features.any_enabled() {
            self.continuation.reset_for_user_input();
            self.overflow_retries_used = 0;
        }
    }

    /// The model has answered: a later overflow may be retried again.
    pub fn on_assistant_success(&mut self)
        ensures
            final(self)@ == old(self)@.after_success(),
    {
        if self.features.any_enabled() {
            self.overflow_retries_used = 0;
        }
    }

    /// The turn is over: what was reserved is given up.
    pub fn on_turn_idle(&mut self)
        ensures
            final(self)@ == old(self)@.after_idle(),
    {
        if self.features.any_enabled() {
            self.overflow_retries_used = 0;
            bounded_continuation::release_continuation(&mut self.continuation);
        }
    }

    /// Decides whether a call is executed.
    pub fn admit_tool_call(
        &mut self,
        identity: ProviderToolCallIdentity,
        telemetry: &mut MemoryTelemetry,
    ) -> (r: HookDecision<AdmitDecision>)
        ensures
            !old(self)@.features.qwen_tool_reliability ==> r is DeferToUpstream && final(self)@
                == old(self)@ && final(telemetry)@ == old(telemetry)@,
            old(self)@.features.qwen_tool_reliability ==> r.deep_view() == HookDecision::Handled(
                old(self)@.ledger.decision(identity@),
            ) && final(self)@ == (EnhancedTurnHooksView {
                ledger: old(self)@.ledger.with_call(identity@),
                ..old(self)@
            }) && final(telemetry)@ == old(telemetry)@ + old(self)@.ledger.outcome(
                identity@,
            ).events,
    {
        if !self.features.qwen_tool_reliability {
            return HookDecision::DeferToUpstream;
        }
        let outcome = self.ledger.admit_call(identity);
        telemetry.emit_all(&outcome.events);
        HookDecision::Handled(outcome.decision)
    }

    /// Decides whether the result of a call is passed on, and notes that it was.
    pub fn complete_original_tool_result(&mut self, provider_call_id: &str) -> (r: HookDecision<
        LateResultDecision,
    >)
        ensures
            !old(self)@.features.qwen_tool_reliability ==> r is DeferToUpstream && final(self)@
                == old(self)@,
            old(self)@.features.qwen_tool_reliability ==> r == HookDecision::Handled(
                old(self)@.ledger.result_decision(provider_call_id@),
            ) && final(self)@ == (EnhancedTurnHooksView {
                ledger: old(self)@.ledger.with_result(provider_call_id@),
                ..old(self)@
            }),
    {
        if !self.features.qwen_tool_reliability {
            return HookDecision::DeferToUpstream;
        }
        HookDecision::Handled(self.ledger.complete_original(provider_call_id))
    }

    /// Decides whether a result that came late is passed on.
    pub fn ingest_late_tool_result(&self, provider_call_id: &str) -> (r: HookDecision<
        LateResultDecision,
    >)
        ensures
            r == (if self@.features.qwen_tool_reliability {
                HookDecision::Handled(self@.ledger.result_decision(provider_call_id@))
            } else {
                HookDecision::DeferToUpstream
            }),
    {
        if !self.features.qwen_tool_reliability {
            return HookDecision::DeferToUpstream;
        }
        HookDecision::Handled(self.ledger.ingest_late_result(provider_call_id))
    }

    /// Notes what became of a call.
    pub fn mark_tool_resolution(&mut self, provider_call_id: &str, resolution: ToolCallResolution)
        ensures
            final(self)@ == (if old(self)@.features.qwen_tool_reliability {
                EnhancedTurnHooksView {
                    ledger: old(self)@.ledger.with_resolution(provider_call_id@, resolution),
                    ..old(self)@
                }
            } else {
                old(self)@
            }),
    {
        if self.features.qwen_tool_reliability {
            self.ledger.mark_resolution(provider_call_id, resolution);
        }
    }

    /// Observes the result of a call, and decides whether the model is told that
    /// it repeats itself.
    pub fn observe_tool_result(
        &mut self,
        call_id: &str,
        input: ObservationInput,
        telemetry: &mut MemoryTelemetry,
    ) -> (r: ObservationDecision)
        ensures
            !old(self)@.features.qwen_tool_reliability ==> r == (ObservationDecision {
                emit_model_notice: false,
                standalone_notice: false,
            }) && final(self)@ == old(self)@ && final(telemetry)@ == old(telemetry)@,
            old(self)@.features.qwen_tool_reliability ==> ({
                let outcome = old(self)@.observations.outcome(
                    call_id@,
                    input@,
                    old(self)@.features.repetition_notice,
                );
                &&& r == outcome.decision
                &&& final(self)@ == (EnhancedTurnHooksView {
                    observations: old(self)@.observations.with_result(input@),
                    ..old(self)@
                })
                &&& final(telemetry)@ == old(telemetry)@ + outcome.events
            }),
    {
        if !self.features.qwen_tool_reliability {
            return ObservationDecision { emit_model_notice: false, standalone_notice: false };
        }
        let outcome = self.observations.observe(call_id, input, self.features.repetition_notice);
        telemetry.emit_all(&outcome.events);
        outcome.decision
    }

    /// Decides what is done about pressure on the context window, which sets in
    /// at `trigger_tokens`.
    pub fn plan_pressure(
        &self,
        surface: &ModelVisibleSurface,
        trigger_tokens: u64,
        compact_threshold_tokens: u64,
        telemetry: &mut MemoryTelemetry,
    ) -> (r: HookDecision<PressurePlan>)
        ensures
            !self@.features.deepseek_context_recovery ==> r is DeferToUpstream && final(telemetry)@
                == old(telemetry)@,
            self@.features.deepseek_context_recovery ==> ({
                let plan = context_recovery::pressure_plan(
                    surface@,
                    self@.prune_policy,
                    trigger_tokens,
                    compact_threshold_tokens,
                );
                &&& r.deep_view() == HookDecision::Handled(plan)
                &&& final(telemetry)@ == old(telemetry)@ + plan.events
            }),
    {
        if !self.features.deepseek_context_recovery {
            return HookDecision::DeferToUpstream;
        }
        let plan = context_recovery::plan_context_pressure(
            surface,
            self.prune_policy,
            trigger_tokens,
            compact_threshold_tokens,
        );
        telemetry.emit_all(&plan.events);
        HookDecision::Handled(plan)
    }

    /// Decides whether a request that overflowed is sent again. `before` is the
    /// surface that was sent, `after` the one that would be sent now.
    pub fn plan_overflow(
        &mut self,
        before: &ModelVisibleSurface,
        after: &ModelVisibleSurface,
        cancelled: bool,
        telemetry: &mut MemoryTelemetry,
    ) -> (r: HookDecision<OverflowPlan>)
        ensures
            !old(self)@.features.deepseek_context_recovery ==> r is DeferToUpstream && final(self)@
                == old(self)@ && final(telemetry)@ == old(telemetry)@,
            old(self)@.features.deepseek_context_recovery ==> ({
                let plan = context_recovery::overflow_plan(
                    old(self)@.attempt(before@.generation, cancelled),
                    before@,
                    after@,
                );
                &&& r.deep_view() == HookDecision::Handled(plan)
                &&& final(self)@ == (EnhancedTurnHooksView {
                    overflow_retries_used: match plan.decision {
                        OverflowDecision::Retry { retry_index } => retry_index,
                        _ => old(self)@.overflow_retries_used,
                    },
                    ..old(self)@
                })
                &&& final(telemetry)@ == old(telemetry)@ + plan.events
            }),
    {
        if !self.features.deepseek_context_recovery {
            return HookDecision::DeferToUpstream;
        }
        let plan = context_recovery::plan_overflow_retry(
            OverflowAttempt {
                generation_before: before.generation,
                retries_used: self.overflow_retries_used,
                cancelled,
            },
            before,
            after,
        );
        if let OverflowDecision::Retry { retry_index } = plan.decision {
            self.overflow_retries_used = retry_index;
        }
        telemetry.emit_all(&plan.events);
        HookDecision::Handled(plan)
    }

    /// Decides whether a turn that stopped is continued.
    pub fn on_turn_stop(
        &mut self,
        context: &TurnStopContext,
        telemetry: &mut MemoryTelemetry,
    ) -> (r: HookDecision<ContinuationPlan>)
        ensures
            !old(self)@.features.qwen_bounded_continuation ==> r is DeferToUpstream && final(self)@
                == old(self)@ && final(telemetry)@ == old(telemetry)@,
            old(self)@.features.qwen_bounded_continuation ==> ({
                let plan = bounded_continuation::stop_plan(old(self)@.continuation, context@);
                &&& r.deep_view() == HookDecision::Handled(plan)
                &&& final(self)@ == (EnhancedTurnHooksView {
                    continuation: bounded_continuation::stopped_budget(
                        old(self)@.continuation,
                        context@,
                    ),
                    overflow_retries_used: if context@.user_steer_pending {
                        0
                    } else {
                        old(self)@.overflow_retries_used
                    },
                    ..old(self)@
                })
                &&& final(telemetry)@ == old(telemetry)@ + plan.events
            }),
    {
        if !self.features.qwen_bounded_continuation {
            return HookDecision::DeferToUpstream;
        }
        if context.user_steer_pending {
            self.overflow_retries_used = 0;
        }
        let plan = bounded_continuation::plan_turn_stop(&mut self.continuation, context);
        telemetry.emit_all(&plan.events);
        HookDecision::Handled(plan)
    }

    /// Counts a continuation as used, and tells whether it was reserved. With every
    /// switch off nothing is counted.
    pub fn commit_continuation(&mut self, reserved: ReservedContinuation) -> (r: Result<
        (),
        ContinuationCommitError,
    >)
        ensures
            r is Ok <==> old(self)@.continuation.reserved == Some(reserved.index),
            r matches Err(e) ==> e == ContinuationCommitError::NotReserved,
            final(self)@ == old(self)@.after_commit(reserved),
    {
        if self.features.any_enabled() {
            bounded_continuation::commit_continuation(&mut self.continuation, reserved)
        } else {
            let mut budget = self.continuation;
            bounded_continuation::commit_continuation(&mut budget, reserved)
        }
    }

    /// Gives up a continuation that was reserved.
    pub fn release_continuation(&mut self)
        ensures
            final(self)@ == old(self)@.after_release(),
    {
        if self.features.any_enabled() {
            bounded_continuation::release_continuation(&mut self.continuation);
        }
    }

    /// Puts a ledger that was written down in place of the current one. It stays
    /// as it is if two records bear the same identifier, or if every switch is off.
    pub fn restore_ledger(&mut self, records: Vec<HandledToolCall>) -> (r: Result<(), LedgerError>)
        ensures
            r is Ok <==> (ToolCallLedgerView { entries: records.deep_view() }).distinct(),
            r matches Err(LedgerError::DuplicateCallId(id)) ==> tool_reliability::first_repeated(
                records.deep_view(),
                id@,
            ),
            final(self)@ == old(self)@.after_restore(records.deep_view()),
    {
        match ToolCallLedger::from_durable(records) {
            Ok(ledger) => {
                if self.features.any_enabled() {
                    self.ledger = ledger;
                }
                Ok(())
            },
            Err(error) => Err(error),
        }
    }
}

/// With every switch off no hook that answers nothing changes anything either.
pub proof fn law_all_off_hooks_stay(
    hooks: EnhancedTurnHooksView,
    reserved: ReservedContinuation,
    records: Seq<HandledToolCallView>,
)
    requires
        !hooks.any_on(),
    ensures
        hooks.after_user_input() == hooks,
        hooks.after_success() == hooks,
        hooks.after_idle() == hooks,
        hooks.after_commit(reserved) == hooks,
        hooks.after_release() == hooks,
        hooks.after_restore(records) == hooks,
{
}

/// A user input restores the whole budget of continuations and retries. The end of
/// a turn restores the retries and gives up what was reserved; it gives back no
/// continuation that was used. All this holds while any switch is on.
pub proof fn law_user_input_restores_budgets(hooks: EnhancedTurnHooksView)
    requires
        hooks.any_on(),
    ensures
        hooks.after_user_input().continuation == AutoContinuationBudget::fresh(),
        hooks.after_user_input().overflow_retries_used == 0,
        hooks.after_user_input().ledger == hooks.ledger,
        hooks.after_idle().overflow_retries_used == 0,
        hooks.after_idle().continuation.used == hooks.continuation.used,
        hooks.after_idle().continuation.reserved is None,
{
}

/// One switch is enough for the budgets to be kept: whichever it is, the user's words
/// start all budgets anew, an answer of the model gives the retry back, and the end of
/// a turn gives up what was reserved.
pub proof fn law_one_switch_is_enough(
    hooks: EnhancedTurnHooksView,
    reserved: ReservedContinuation,
)
    requires
        hooks.features.qwen_tool_reliability || hooks.features.deepseek_context_recovery
            || hooks.features.qwen_bounded_continuation || hooks.features.repetition_notice
            || hooks.features.intent_continuation,
    ensures
        hooks.after_user_input() == (EnhancedTurnHooksView {
            continuation: AutoContinuationBudget { used: 0, reserved: None },
            overflow_retries_used: 0,
            ..hooks
        }),
        hooks.after_success() == (EnhancedTurnHooksView { overflow_retries_used: 0, ..hooks }),
        hooks.after_idle() == (EnhancedTurnHooksView {
            continuation: AutoContinuationBudget {
                used: hooks.continuation.used,
                reserved: None,
            },
            overflow_retries_used: 0,
            ..hooks
        }),
        hooks.after_release() == (EnhancedTurnHooksView {
            continuation: AutoContinuationBudget {
                used: hooks.continuation.used,
                reserved: None,
            },
            ..hooks
        }),
        hooks.continuation.reserved == Some(reserved.index) ==> hooks.after_commit(reserved) == (
        EnhancedTurnHooksView {
            continuation: AutoContinuationBudget { used: reserved.index, reserved: None },
            ..hooks
        }),
        hooks.continuation.reserved != Some(reserved.index) ==> hooks.after_commit(reserved)
            == hooks,
{
}

/// A session begins with an empty ledger, fresh budgets and the standard way of
/// cutting: results from 2,000 characters on, of which 400 stay at the front and 800
/// at the end.
pub proof fn law_sessions_begin_fresh(features: EnhancedRuntimeFeatures)
    ensures
        ({
            let hooks = EnhancedTurnHooksView::fresh(features);
            &&& hooks.features == features
            &&& hooks.ledger.entries.len() == 0
            &&& hooks.observations.entries.len() == 0
            &&& hooks.continuation == (AutoContinuationBudget { used: 0, reserved: None })
            &&& hooks.overflow_retries_used == 0
            &&& hooks.prune_policy.min_text_chars == 2_000
            &&& hooks.prune_policy.keep_head_chars == 400
            &&& hooks.prune_policy.keep_tail_chars == 800
        }),
{
}

} // verus!
