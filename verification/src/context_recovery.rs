//! What to do when the context window runs full.

use crate::context_pruner;
use crate::context_pruner::{
    ModelVisibleSurface, ModelVisibleSurfaceView, PruneOutcome, PruneOutcomeView,
    ToolResultPrunePolicy,
};
use crate::telemetry;
use crate::telemetry::{
    EnhancedEvent, EnhancedEventFields, EnhancedEventFieldsView, EnhancedEventKind,
    EnhancedEventView,
};
use vstd::prelude::*;

verus! {

/// How often a request that overflowed the context window is sent again.
pub const MAX_CONTEXT_OVERFLOW_RETRIES: u8 = 1;

/// Whether the native compaction has to run.
#[derive(Debug, Clone, Copy, PartialEq, Eq, Structural)]
pub enum CompactDecision {
    Skip,
    RunNativeCodexLocalCompact,
}

/// What is done about pressure on the context window.
#[derive(Debug, PartialEq, Eq)]
pub struct PressurePlan {
    pub prune: PruneOutcome,
    pub compact: CompactDecision,
    pub events: Vec<EnhancedEvent>,
}

/// The model of [`PressurePlan`].
#[verifier::ext_equal]
pub struct PressurePlanView {
    pub prune: PruneOutcomeView,
    pub compact: CompactDecision,
    pub events: Seq<EnhancedEventView>,
}

impl View for PressurePlan {
    type V = PressurePlanView;

    open spec fn view(&self) -> PressurePlanView {
        PressurePlanView {
            prune: self.prune.deep_view(),
            compact: self.compact,
            events: self.events.deep_view(),
        }
    }
}

impl DeepView for PressurePlan {
    type V = PressurePlanView;

    open spec fn deep_view(&self) -> PressurePlanView {
        self@
    }
}

impl Clone for PressurePlan {
    fn clone(&self) -> (r: Self)
        ensures
            r@ == self@,
    {
        PressurePlan {
            prune: self.prune.clone(),
            compact: self.compact,
            events: self.events.clone(),
        }
    }
}

/// The report that pruning made compaction unnecessary.
pub open spec fn avoided_event(prune: PruneOutcomeView) -> EnhancedEventView {
    telemetry::event(
        EnhancedEventKind::ContextCompactionAvoided,
        EnhancedEventFieldsView {
            before_token_estimate: Some(prune.before_token_estimate),
            after_token_estimate: Some(prune.after_token_estimate),
            chars_removed: Some(prune.chars_removed),
            ..EnhancedEventFieldsView::none()
        },
    )
}

/// The plan for a surface: prune first, and compact only what is still at the
/// threshold.
pub open spec fn pressure_plan(
    surface: ModelVisibleSurfaceView,
    policy: ToolResultPrunePolicy,
    trigger_tokens: u64,
    compact_threshold_tokens: u64,
) -> PressurePlanView {
    let prune = context_pruner::prune_result(surface, policy, trigger_tokens);
    let compact = prune.after_token_estimate >= compact_threshold_tokens;
    PressurePlanView {
        prune,
        compact: if compact {
            CompactDecision::RunNativeCodexLocalCompact
        } else {
            CompactDecision::Skip
        },
        events: if !compact && prune.before_token_estimate >= compact_threshold_tokens {
            prune.events.push(avoided_event(prune))
        } else {
            prune.events
        },
    }
}

/// Plans what is done about pressure on the context window: the tool results are
/// pruned from `trigger_tokens` on, and compaction runs only if what is left
/// still has `compact_threshold_tokens`.
pub fn plan_context_pressure(
    surface: &ModelVisibleSurface,
    policy: ToolResultPrunePolicy,
    trigger_tokens: u64,
    compact_threshold_tokens: u64,
) -> (r: PressurePlan)
    ensures
        r@ == pressure_plan(surface@, policy, trigger_tokens, compact_threshold_tokens),
{
    let prune = context_pruner::apply_pressure_prune(surface, policy, trigger_tokens);
    let mut events: Vec<EnhancedEvent> = prune.events.clone();
    let compact = if prune.after_token_estimate >= compact_threshold_tokens {
        CompactDecision::RunNativeCodexLocalCompact
    } else {
        CompactDecision::Skip
    };
    if compact == CompactDecision::Skip && prune.before_token_estimate >= compact_threshold_tokens {
        let ghost before = events.deep_view();
        let event = EnhancedEvent::new(
            EnhancedEventKind::ContextCompactionAvoided,
            EnhancedEventFields {
                before_token_estimate: Some(prune.before_token_estimate),
                after_token_estimate: Some(prune.after_token_estimate),
                chars_removed: Some(prune.chars_removed),
                ..EnhancedEventFields::default()
            },
        );
        events.push(event);
        assert(events.deep_view() =~= before.push(event@));
    }
    PressurePlan { prune, compact, events }
}

/// A request that overflowed the context window.
#[derive(Debug, Clone, Copy, PartialEq, Eq, Structural)]
pub struct OverflowAttempt {
    /// The generation of the surface that was sent.
    pub generation_before: u64,
    /// How often the request was sent again already.
    pub retries_used: u8,
    pub cancelled: bool,
}

/// Whether the request is sent again.
#[derive(Debug, Clone, Copy, PartialEq, Eq, Structural)]
pub enum OverflowDecision {
    Retry { retry_index: u8 },
    PreserveOriginalError,
    Cancelled,
}

/// What is done about a request that overflowed.
#[derive(Debug, PartialEq, Eq)]
pub struct OverflowPlan {
    pub decision: OverflowDecision,
    pub events: Vec<EnhancedEvent>,
}

/// The model of [`OverflowPlan`].
#[verifier::ext_equal]
pub struct OverflowPlanView {
    pub decision: OverflowDecision,
    pub events: Seq<EnhancedEventView>,
}

impl View for OverflowPlan {
    type V = OverflowPlanView;

    open spec fn view(&self) -> OverflowPlanView {
        OverflowPlanView {
            decision: self.decision,
            events: self.events.deep_view(),
        }
    }
}

impl DeepView for OverflowPlan {
    type V = OverflowPlanView;

    open spec fn deep_view(&self) -> OverflowPlanView {
        self@
    }
}

impl Clone for OverflowPlan {
    fn clone(&self) -> (r: Self)
        ensures
            r@ == self@,
    {
        OverflowPlan {
            decision: self.decision,
            events: self.events.clone(),
        }
    }
}

/// Whether a request that overflowed is sent again: not once it is cancelled, not
/// more often than [`MAX_CONTEXT_OVERFLOW_RETRIES`] allows, and not unless the
/// surface moved on to another generation.
pub open spec fn overflow_decision(
    attempt: OverflowAttempt,
    after: ModelVisibleSurfaceView,
) -> OverflowDecision {
    if attempt.cancelled {
        OverflowDecision::Cancelled
    } else if attempt.retries_used >= MAX_CONTEXT_OVERFLOW_RETRIES || after.generation
        <= attempt.generation_before {
        OverflowDecision::PreserveOriginalError
    } else {
        OverflowDecision::Retry { retry_index: (attempt.retries_used + 1) as u8 }
    }
}

/// The plan for a request that overflowed: the decision, and the report of it.
pub open spec fn overflow_plan(
    attempt: OverflowAttempt,
    before: ModelVisibleSurfaceView,
    after: ModelVisibleSurfaceView,
) -> OverflowPlanView {
    let decision = overflow_decision(attempt, after);
    let sizes = EnhancedEventFieldsView {
        before_token_estimate: Some(before.tokens() as u64),
        after_token_estimate: Some(after.tokens() as u64),
        ..EnhancedEventFieldsView::none()
    };
    OverflowPlanView {
        decision,
        events: match decision {
            OverflowDecision::Cancelled => seq![],
            OverflowDecision::PreserveOriginalError => seq![
                telemetry::event(EnhancedEventKind::ContextOverflowRetryRefused, sizes),
            ],
            OverflowDecision::Retry { retry_index } => seq![
                telemetry::event(
                    EnhancedEventKind::ContextOverflowRetry,
                    EnhancedEventFieldsView { retry_index: Some(retry_index), ..sizes },
                ),
            ],
        },
    }
}

/// Plans whether a request that overflowed is sent again. `before` is the surface
/// that was sent, `after` the one that would be sent now.
pub fn plan_overflow_retry(
    attempt: OverflowAttempt,
    before: &ModelVisibleSurface,
    after: &ModelVisibleSurface,
) -> (r: OverflowPlan)
    ensures
        r@ == overflow_plan(attempt, before@, after@),
{
    let mut events: Vec<EnhancedEvent> = Vec::new();
    if attempt.cancelled {
        assert(events.deep_view() =~= seq![]);
        return OverflowPlan { decision: OverflowDecision::Cancelled, events };
    }
    let mut fields = EnhancedEventFields {
        before_token_estimate: Some(before.estimated_tokens()),
        after_token_estimate: Some(after.estimated_tokens()),
        ..EnhancedEventFields::default()
    };
    if attempt.retries_used >= MAX_CONTEXT_OVERFLOW_RETRIES || after.generation
        <= attempt.generation_before {
        events.push(EnhancedEvent::new(EnhancedEventKind::ContextOverflowRetryRefused, fields));
        assert(events.deep_view() =~= overflow_plan(attempt, before@, after@).events);
        return OverflowPlan { decision: OverflowDecision::PreserveOriginalError, events };
    }
    let retry_index: u8 = attempt.retries_used + 1;
    fields.retry_index = Some(retry_index);
    events.push(EnhancedEvent::new(EnhancedEventKind::ContextOverflowRetry, fields));
    assert(events.deep_view() =~= overflow_plan(attempt, before@, after@).events);
    OverflowPlan { decision: OverflowDecision::Retry { retry_index }, events }
}

/// A retry is granted only for a surface that moved on, and once it is used no
/// further one is granted.
pub proof fn law_overflow_is_retried_once(
    attempt: OverflowAttempt,
    after: ModelVisibleSurfaceView,
    later: OverflowAttempt,
    later_after: ModelVisibleSurfaceView,
)
    requires
        overflow_decision(attempt, after) matches OverflowDecision::Retry { retry_index }
            && later.retries_used == retry_index,
    ensures
        !(overflow_decision(later, later_after) is Retry),
        after.generation > attempt.generation_before,
{
}

/// Compaction is skipped exactly when the pruned surface is below the threshold,
/// and no plan grows the estimate of a surface that it rewrote.
pub proof fn law_compaction_is_the_last_resort(
    surface: ModelVisibleSurfaceView,
    policy: ToolResultPrunePolicy,
    trigger_tokens: u64,
    compact_threshold_tokens: u64,
)
    ensures
        ({
            let plan = pressure_plan(surface, policy, trigger_tokens, compact_threshold_tokens);
            &&& plan.compact == CompactDecision::Skip <==> plan.prune.after_token_estimate
                < compact_threshold_tokens
            &&& plan.prune.after_token_estimate == plan.prune.surface.tokens()
            &&& plan.prune.rewritten ==> plan.prune.after_token_estimate <= surface.tokens()
        }),
{
}

/// A request that overflowed is sent again exactly where it was not cancelled, was
/// not sent again before, and the surface has moved on. It then counts as sent again
/// once. Where it was cancelled, that is the answer; else the error stands.
pub proof fn law_overflow_is_decided_by_progress(
    attempt: OverflowAttempt,
    before: ModelVisibleSurfaceView,
    after: ModelVisibleSurfaceView,
)
    ensures
        ({
            let plan = overflow_plan(attempt, before, after);
            &&& attempt.cancelled <==> plan.decision == OverflowDecision::Cancelled
            &&& !attempt.cancelled && attempt.retries_used == 0 && after.generation
                > attempt.generation_before ==> plan.decision == (OverflowDecision::Retry {
                retry_index: 1,
            })
            &&& !attempt.cancelled && (attempt.retries_used > 0 || after.generation
                <= attempt.generation_before) ==> plan.decision
                == OverflowDecision::PreserveOriginalError
            &&& attempt.cancelled ==> plan.events.len() == 0
            &&& !attempt.cancelled ==> {
                &&& plan.events.len() == 1
                &&& plan.events[0].kind == (if plan.decision is Retry {
                    EnhancedEventKind::ContextOverflowRetry
                } else {
                    EnhancedEventKind::ContextOverflowRetryRefused
                })
                &&& plan.events[0].fields.before_token_estimate == Some(before.tokens() as u64)
                &&& plan.events[0].fields.after_token_estimate == Some(after.tokens() as u64)
            }
        }),
{
}

/// The native compaction runs exactly where pruning still leaves at least the
/// threshold, and it is reported as avoided exactly where pruning brought the surface
/// from the threshold or above to below it.
pub proof fn law_compaction_goes_by_what_is_left(
    surface: ModelVisibleSurfaceView,
    policy: ToolResultPrunePolicy,
    trigger_tokens: u64,
    compact_threshold_tokens: u64,
)
    ensures
        ({
            let plan = pressure_plan(surface, policy, trigger_tokens, compact_threshold_tokens);
            let left = plan.prune.surface.tokens();
            let pruning = plan.prune.events.len();
            &&& left >= compact_threshold_tokens ==> plan.compact
                == CompactDecision::RunNativeCodexLocalCompact
            &&& left < compact_threshold_tokens ==> plan.compact == CompactDecision::Skip
            &&& left < compact_threshold_tokens <= surface.tokens() ==> plan.events.len()
                == pruning + 1 && plan.events.last().kind
                == EnhancedEventKind::ContextCompactionAvoided
                && plan.events.last().fields.before_token_estimate == Some(
                surface.tokens() as u64,
            ) && plan.events.last().fields.after_token_estimate == Some(left as u64)
            &&& !(left < compact_threshold_tokens <= surface.tokens()) ==> plan.events
                == plan.prune.events
            &&& plan.prune == context_pruner::prune_result(surface, policy, trigger_tokens)
        }),
{
}

} // verus!
