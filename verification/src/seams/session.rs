//! What holds of a session as a whole, whatever happens in it and in whichever
//! order.

use crate::bounded_continuation::{
    ReservedContinuation, TurnStopContextView, MAX_AUTO_CONTINUATIONS,
};
use crate::config::EnhancedRuntimeFeatures;
use crate::context_projection;
use crate::context_projection::ContextProjectionStoreView;
use crate::context_pruner::ModelVisibleSurfaceView;
use crate::context_recovery::MAX_CONTEXT_OVERFLOW_RETRIES;
use crate::replay;
use crate::replay::SeenCallsView;
use crate::response_items::ResponseItemView;
use crate::runtime::EnhancedSessionRuntimeView;
use crate::seams::context;
use crate::seams::tools;
use crate::seams::tools::ToolCallView;
use crate::seams::turns;
use crate::telemetry;
use crate::telemetry::EnhancedEventKind;
use crate::tool_reliability;
use crate::tool_reliability::{
    HandledToolCallView, LedgerStep, ToolCallLedgerView, ToolCallResolution,
};
use vstd::prelude::*;

verus! {

/// What can happen in a session.
pub enum SessionStep {
    /// A call comes in.
    Call { call: ToolCallView },
    /// The result of a call comes in.
    Completion { call_id: Seq<char>, succeeded: bool, result_text: Option<Seq<char>> },
    /// A call stands in an answer of the model that is being read.
    ResponseCall { item: ResponseItemView, seen: SeenCallsView },
    /// Notices of repetitions go into a prompt.
    Notices,
    /// The ledger is made from the history if that is due.
    Restore { history: Seq<ResponseItemView> },
    /// A prompt is checked for pressure.
    Pressure {
        items: Seq<ResponseItemView>,
        context_window_tokens: u64,
        trigger_tokens: u64,
        compact_threshold_tokens: u64,
    },
    /// A prompt is shown with its replacements.
    Projection { items: Seq<ResponseItemView> },
    /// What stands in place of the originals of a prompt is kept.
    Remember { original: Seq<ResponseItemView>, projected: Seq<ResponseItemView> },
    /// The history was compacted.
    Compaction,
    /// A request overflowed.
    Overflow {
        items: Seq<ResponseItemView>,
        forced_trigger_tokens: u64,
        context_window_tokens: u64,
        cancelled: bool,
    },
    /// A request that overflowed may be sent again.
    RetryDecision {
        before: ModelVisibleSurfaceView,
        items: Seq<ResponseItemView>,
        cancelled: bool,
    },
    /// A turn stops.
    Stop { context: TurnStopContextView },
    /// The nudge of a continuation was recorded, or could not be.
    Start { reserved: ReservedContinuation, recorded: bool },
    /// The request of a continuation has succeeded.
    Commit,
    /// The request of a continuation has failed.
    Release,
    /// The user has spoken.
    UserInput,
    /// The model has answered.
    AssistantSuccess,
    /// The turn is over.
    Idle,
}

/// The runtime with what was reserved given up.
pub open spec fn released(runtime: EnhancedSessionRuntimeView) -> EnhancedSessionRuntimeView {
    EnhancedSessionRuntimeView {
        hooks: runtime.hooks.after_release(),
        ..runtime
    }
}

/// The runtime after one step. Each step is what the seam of that name promises.
#[verifier::opaque]
pub open spec fn step_session(
    runtime: EnhancedSessionRuntimeView,
    step: SessionStep,
) -> EnhancedSessionRuntimeView {
    match step {
        SessionStep::Call { call } => runtime.after_call(call),
        SessionStep::Completion { call_id, succeeded, result_text } => runtime.after_completion(
            call_id,
            succeeded,
            result_text,
        ),
        SessionStep::ResponseCall { item, seen } => if tools::is_suppressed(runtime, item, seen) {
            let fields = tool_reliability::call_fields(replay::call_of(item)->0.call_id);
            runtime.with_events(
                seq![
                    telemetry::event(EnhancedEventKind::ToolDuplicateDetected, fields),
                    telemetry::event(EnhancedEventKind::ToolDuplicateSuppressed, fields),
                ],
            )
        } else {
            runtime
        },
        SessionStep::Notices => EnhancedSessionRuntimeView {
            pending_standalone_repetition_notice: false,
            ..runtime
        },
        SessionStep::Restore { history } => if !runtime.ledger_restored
            && runtime.hooks.features.qwen_tool_reliability {
            EnhancedSessionRuntimeView {
                ledger_restored: true,
                ..runtime.with_ledger(tools::history_ledger(history))
            }
        } else {
            runtime
        },
        SessionStep::Pressure {
            items,
            context_window_tokens,
            trigger_tokens,
            compact_threshold_tokens,
        } => if context::handles_pressure(runtime, context_window_tokens) {
            context::after_pressure(runtime, items, trigger_tokens, compact_threshold_tokens)
        } else {
            runtime
        },
        SessionStep::Projection { items } => context::after_projection(runtime, items),
        SessionStep::Remember { original, projected } => if
            runtime.hooks.features.deepseek_context_recovery {
            EnhancedSessionRuntimeView {
                context_projections: context::remembered(
                    runtime.context_projections,
                    original,
                    projected,
                ),
                ..runtime
            }
        } else {
            runtime
        },
        SessionStep::Compaction => if runtime.hooks.features.deepseek_context_recovery {
            EnhancedSessionRuntimeView {
                context_projections: runtime.context_projections.cleared(),
                telemetry: if runtime.context_projections.records.len() > 0 {
                    runtime.telemetry.push(context::cleared_event())
                } else {
                    runtime.telemetry
                },
                ..runtime
            }
        } else {
            runtime
        },
        SessionStep::Overflow {
            items,
            forced_trigger_tokens,
            context_window_tokens,
            cancelled,
        } => context::after_overflow(
            runtime,
            items,
            forced_trigger_tokens,
            context_window_tokens,
            cancelled,
        ),
        SessionStep::RetryDecision { before, items, cancelled } => context::after_retry(
            runtime,
            before,
            items,
            cancelled,
        ),
        SessionStep::Stop { context } => turns::after_stop(runtime, context),
        SessionStep::Start { reserved, recorded } => if recorded {
            EnhancedSessionRuntimeView { pending_continuation: Some(reserved), ..runtime }
        } else {
            released(runtime)
        },
        SessionStep::Commit => turns::after_commit(runtime),
        SessionStep::Release => EnhancedSessionRuntimeView {
            pending_continuation: None,
            ..released(runtime)
        },
        SessionStep::UserInput => EnhancedSessionRuntimeView {
            hooks: runtime.hooks.after_user_input(),
            ..runtime.settled()
        },
        SessionStep::AssistantSuccess => EnhancedSessionRuntimeView {
            hooks: runtime.hooks.after_success(),
            ..runtime
        },
        SessionStep::Idle => EnhancedSessionRuntimeView {
            hooks: runtime.hooks.after_idle(),
            ..runtime.settled()
        },
    }
}

/// The runtime after all steps.
pub open spec fn run_session(
    runtime: EnhancedSessionRuntimeView,
    steps: Seq<SessionStep>,
) -> EnhancedSessionRuntimeView
    decreases steps.len(),
{
    if steps.len() == 0 {
        runtime
    } else {
        step_session(run_session(runtime, steps.drop_last()), steps.last())
    }
}

impl EnhancedSessionRuntimeView {
    /// Whether the runtime is as every step leaves it: no call is in the ledger
    /// twice, no original has two replacements, and no budget is overdrawn.
    pub open spec fn well_formed(self) -> bool {
        &&& self.hooks.ledger.distinct()
        &&& self.context_projections.distinct()
        &&& self.hooks.continuation.well_formed()
        &&& self.hooks.overflow_retries_used <= MAX_CONTEXT_OVERFLOW_RETRIES
    }
}

proof fn lemma_history_distinct(items: Seq<ResponseItemView>)
    ensures
        tools::history_ledger(items).distinct(),
    decreases items.len(),
{
    if items.len() > 0 {
        let before = tools::history_ledger(items.drop_last());
        lemma_history_distinct(items.drop_last());
        lemma_history_step_distinct(before, items.last());
    }
}

proof fn lemma_output_distinct(
    ledger: ToolCallLedgerView,
    call_id: Seq<char>,
    success: Option<bool>,
)
    requires
        ledger.distinct(),
    ensures
        ledger.with_result(call_id).with_resolution(
            call_id,
            tools::output_resolution(success),
        ).distinct(),
{
    tool_reliability::law_ledger_stays_distinct(ledger, LedgerStep::Result { call_id });
    tool_reliability::law_ledger_stays_distinct(
        ledger.with_result(call_id),
        LedgerStep::Resolution { call_id, resolution: tools::output_resolution(success) },
    );
}

proof fn lemma_history_step_distinct(ledger: ToolCallLedgerView, item: ResponseItemView)
    requires
        ledger.distinct(),
    ensures
        tools::history_step(ledger, item).distinct(),
{
    match item {
        ResponseItemView::FunctionCall { call_id, name, arguments } => {
            tool_reliability::law_ledger_stays_distinct(
                ledger,
                LedgerStep::Call {
                    identity: tool_reliability::raw_identity(
                        call_id,
                        name,
                        tool_reliability::ToolKind::Function,
                        ""@,
                        tool_reliability::canonical_arguments(arguments),
                    ),
                },
            );
        },
        ResponseItemView::CustomToolCall { call_id, name, input } => {
            tool_reliability::law_ledger_stays_distinct(
                ledger,
                LedgerStep::Call {
                    identity: tool_reliability::raw_identity(
                        call_id,
                        name,
                        tool_reliability::ToolKind::Custom,
                        ""@,
                        input,
                    ),
                },
            );
        },
        ResponseItemView::FunctionCallOutput { call_id: Some(call_id), output, .. } => {
            lemma_output_distinct(ledger, call_id, output.success);
        },
        ResponseItemView::CustomToolCallOutput { call_id, output, .. } => {
            lemma_output_distinct(ledger, call_id, output.success);
        },
        _ => {},
    }
}

proof fn lemma_remembered_distinct(
    store: ContextProjectionStoreView,
    original: Seq<ResponseItemView>,
    projected: Seq<ResponseItemView>,
)
    requires
        store.distinct(),
    ensures
        context::remembered(store, original, projected).distinct(),
    decreases original.len(),
{
    if original.len() > 0 {
        let before = context::remembered(store, original.drop_last(), projected);
        lemma_remembered_distinct(store, original.drop_last(), projected);
        let item = original.last();
        match (item.answered_call(), item.answer_text()) {
            (Some(call_id), Some(t)) => match context::shown_text(projected, call_id) {
                Some(shown) => {
                    context_projection::law_replacements_stay_distinct(before, call_id, t, shown);
                },
                None => {},
            },
            _ => {},
        }
    }
}

proof fn lemma_tool_steps_well_formed(runtime: EnhancedSessionRuntimeView, step: SessionStep)
    requires
        runtime.well_formed(),
        step is Call || step is Completion || step is Restore,
    ensures
        step_session(runtime, step).well_formed(),
{
    reveal(step_session);
    let ledger = runtime.hooks.ledger;
    match step {
        SessionStep::Call { call } => {
            tool_reliability::law_ledger_stays_distinct(
                ledger,
                LedgerStep::Call { identity: call.identity() },
            );
            tool_reliability::law_ledger_stays_distinct(
                ledger.with_call(call.identity()),
                LedgerStep::Resolution {
                    call_id: call.call_id,
                    resolution: ToolCallResolution::SyntheticDuplicate,
                },
            );
        },
        SessionStep::Completion { call_id, succeeded, .. } => {
            tool_reliability::law_ledger_stays_distinct(ledger, LedgerStep::Result { call_id });
            tool_reliability::law_ledger_stays_distinct(
                ledger.with_result(call_id),
                LedgerStep::Resolution { call_id, resolution: result_resolution(succeeded) },
            );
        },
        SessionStep::Restore { history } => {
            lemma_history_distinct(history);
        },
        _ => {},
    }
}

proof fn lemma_context_steps_well_formed(runtime: EnhancedSessionRuntimeView, step: SessionStep)
    requires
        runtime.well_formed(),
        step is Remember || step is Pressure || step is Overflow,
    ensures
        step_session(runtime, step).well_formed(),
{
    reveal(step_session);
    match step {
        SessionStep::Remember { original, projected } => {
            lemma_remembered_distinct(runtime.context_projections, original, projected);
        },
        SessionStep::Pressure { items, trigger_tokens, compact_threshold_tokens, .. } => {
            lemma_remembered_distinct(
                runtime.context_projections,
                items,
                context::relieved_items(
                    runtime,
                    items,
                    trigger_tokens,
                    compact_threshold_tokens,
                ),
            );
        },
        SessionStep::Overflow { items, forced_trigger_tokens, context_window_tokens, .. } => {
            lemma_remembered_distinct(
                runtime.context_projections,
                items,
                context::relieved_items(
                    runtime,
                    items,
                    forced_trigger_tokens,
                    context_window_tokens,
                ),
            );
        },
        _ => {},
    }
}

proof fn lemma_other_steps_well_formed(runtime: EnhancedSessionRuntimeView, step: SessionStep)
    requires
        runtime.well_formed(),
        !(step is Call || step is Completion || step is Restore),
        !(step is Remember || step is Pressure || step is Overflow),
    ensures
        step_session(runtime, step).well_formed(),
{
    reveal(step_session);
}

/// Every step leaves the runtime well formed, and a fresh one is.
pub proof fn law_session_stays_well_formed(
    runtime: EnhancedSessionRuntimeView,
    step: SessionStep,
    features: EnhancedRuntimeFeatures,
)
    requires
        runtime.well_formed(),
    ensures
        step_session(runtime, step).well_formed(),
        EnhancedSessionRuntimeView::fresh(
            features,
            ContextProjectionStoreView::empty(),
        ).well_formed(),
{
    if step is Call || step is Completion || step is Restore {
        lemma_tool_steps_well_formed(runtime, step);
    } else if step is Remember || step is Pressure || step is Overflow {
        lemma_context_steps_well_formed(runtime, step);
    } else {
        lemma_other_steps_well_formed(runtime, step);
    }
}

/// What is noted of a call whose result was passed on.
pub open spec fn result_resolution(succeeded: bool) -> ToolCallResolution {
    if succeeded {
        ToolCallResolution::Executed
    } else {
        ToolCallResolution::Failed
    }
}

/// No step changes the switches or the way in which results are cut.
pub proof fn law_switches_stay(runtime: EnhancedSessionRuntimeView, step: SessionStep)
    ensures
        step_session(runtime, step).hooks.features == runtime.hooks.features,
        step_session(runtime, step).hooks.prune_policy == runtime.hooks.prune_policy,
{
    reveal(step_session);
}

/// Whether a step notes a continuation whose nudge was recorded.
pub open spec fn starts_continuation(step: SessionStep) -> bool {
    match step {
        SessionStep::Start { recorded, .. } => recorded,
        _ => false,
    }
}

/// With every switch off the runtime is as good as absent: whatever happens, its
/// hooks, its telemetry, its projections and all else stay as they are. Only what is
/// pending can change: it is given up with the turns, and a continuation is pending
/// that the caller says was started.
pub proof fn law_all_off_changes_nothing(runtime: EnhancedSessionRuntimeView, step: SessionStep)
    requires
        !runtime.hooks.any_on(),
    ensures
        ({
            let after = step_session(runtime, step);
            &&& after == (EnhancedSessionRuntimeView {
                pending_continuation: after.pending_continuation,
                pending_repetition_notices: after.pending_repetition_notices,
                pending_standalone_repetition_notice: after.pending_standalone_repetition_notice,
                ..runtime
            })
            &&& after.pending_repetition_notices.subset_of(runtime.pending_repetition_notices)
            &&& after.pending_standalone_repetition_notice
                ==> runtime.pending_standalone_repetition_notice
            &&& !starts_continuation(step) ==> after.pending_continuation is None
                || after.pending_continuation == runtime.pending_continuation
        }),
{
    reveal(step_session);
}

/// A session in which every switch is off and nothing is pending is still as it was
/// after any steps, as long as no continuation is started, and a continuation that
/// is started changes nothing but what is pending.
pub proof fn law_all_off_session_stays(
    runtime: EnhancedSessionRuntimeView,
    steps: Seq<SessionStep>,
)
    requires
        !runtime.hooks.any_on(),
        runtime.pending_repetition_notices == Set::<Seq<char>>::empty(),
        !runtime.pending_standalone_repetition_notice,
    ensures
        run_session(runtime, steps) == (EnhancedSessionRuntimeView {
            pending_continuation: run_session(runtime, steps).pending_continuation,
            ..runtime
        }),
        runtime.pending_continuation is None && (forall|i: int|
            0 <= i < steps.len() ==> !starts_continuation(#[trigger] steps[i])) ==> run_session(
            runtime,
            steps,
        ) == runtime,
    decreases steps.len(),
{
    if steps.len() > 0 {
        let front = steps.drop_last();
        let before = run_session(runtime, front);
        law_all_off_session_stays(runtime, front);
        law_all_off_changes_nothing(before, steps.last());
        let after = step_session(before, steps.last());
        assert(after.pending_repetition_notices =~= Set::<Seq<char>>::empty());
        if forall|i: int| 0 <= i < steps.len() ==> !starts_continuation(#[trigger] steps[i]) {
            assert forall|i: int| 0 <= i < front.len() implies !starts_continuation(
                #[trigger] front[i],
            ) by {
                assert(front[i] == steps[i]);
            }
            assert(steps.last() == steps[steps.len() - 1]);
        }
    }
}

/// Whether a step executes a call.
pub open spec fn executes(
    runtime: EnhancedSessionRuntimeView,
    step: SessionStep,
    call_id: Seq<char>,
) -> bool {
    match step {
        SessionStep::Call { call } => call.call_id == call_id && runtime.call_result(call) is Ok,
        _ => false,
    }
}

/// Whether a step passes the result of a call on to the model.
pub open spec fn forwards(
    runtime: EnhancedSessionRuntimeView,
    step: SessionStep,
    call_id: Seq<char>,
) -> bool {
    match step {
        SessionStep::Completion { call_id: id, succeeded, result_text } => id == call_id
            && runtime.completion(id, succeeded, result_text) is Ok,
        _ => false,
    }
}

/// Whether a step answers a duplicate of a call with a message to the model.
pub open spec fn answers_duplicate(
    runtime: EnhancedSessionRuntimeView,
    step: SessionStep,
    call_id: Seq<char>,
) -> bool {
    match step {
        SessionStep::Call { call } => call.call_id == call_id && (runtime.call_result(
            call,
        ) matches Err(error) && error is RespondToModel && error != tools::drop_error()),
        _ => false,
    }
}

/// How often something happens in the course of the steps.
pub open spec fn occurrences(
    runtime: EnhancedSessionRuntimeView,
    steps: Seq<SessionStep>,
    what: spec_fn(EnhancedSessionRuntimeView, SessionStep) -> bool,
) -> nat
    decreases steps.len(),
{
    if steps.len() == 0 {
        0
    } else {
        occurrences(runtime, steps.drop_last(), what) + (if what(
            run_session(runtime, steps.drop_last()),
            steps.last(),
        ) {
            1nat
        } else {
            0nat
        })
    }
}

/// How often a call is executed in the course of the steps.
pub open spec fn executions(
    runtime: EnhancedSessionRuntimeView,
    steps: Seq<SessionStep>,
    call_id: Seq<char>,
) -> nat {
    occurrences(
        runtime,
        steps,
        |rt: EnhancedSessionRuntimeView, step: SessionStep| executes(rt, step, call_id),
    )
}

/// How often the result of a call is passed on in the course of the steps.
pub open spec fn forwarded(
    runtime: EnhancedSessionRuntimeView,
    steps: Seq<SessionStep>,
    call_id: Seq<char>,
) -> nat {
    occurrences(
        runtime,
        steps,
        |rt: EnhancedSessionRuntimeView, step: SessionStep| forwards(rt, step, call_id),
    )
}

/// How often a duplicate of a call is answered in the course of the steps.
pub open spec fn duplicates_answered(
    runtime: EnhancedSessionRuntimeView,
    steps: Seq<SessionStep>,
    call_id: Seq<char>,
) -> nat {
    occurrences(
        runtime,
        steps,
        |rt: EnhancedSessionRuntimeView, step: SessionStep| answers_duplicate(rt, step, call_id),
    )
}

/// Whether the ledger keeps what it knows of a call from one state to another.
pub open spec fn keeps_call(
    before: ToolCallLedgerView,
    after: ToolCallLedgerView,
    call_id: Seq<char>,
) -> bool {
    before.lookup(call_id) matches Some(known) ==> {
        &&& after.lookup(call_id) matches Some(later)
        &&& later.identity == known.identity
        &&& known.original_result_delivered ==> later.original_result_delivered
        &&& known.synthetic_duplicate_emitted ==> later.synthetic_duplicate_emitted
    }
}

proof fn lemma_ledger_stays(runtime: EnhancedSessionRuntimeView, step: SessionStep)
    requires
        runtime.ledger_restored,
        !(step is Call),
        !(step is Completion),
    ensures
        step_session(runtime, step).ledger_restored,
        step_session(runtime, step).hooks.ledger == runtime.hooks.ledger,
{
    reveal(step_session);
}

proof fn lemma_call_keeps_calls(
    runtime: EnhancedSessionRuntimeView,
    call: ToolCallView,
    call_id: Seq<char>,
)
    ensures
        runtime.after_call(call).ledger_restored == runtime.ledger_restored,
        keeps_call(runtime.hooks.ledger, runtime.after_call(call).hooks.ledger, call_id),
{
    let ledger = runtime.hooks.ledger;
    tool_reliability::law_ledger_remembers(
        ledger,
        LedgerStep::Call { identity: call.identity() },
        call_id,
    );
    tool_reliability::law_ledger_remembers(
        ledger.with_call(call.identity()),
        LedgerStep::Resolution {
            call_id: call.call_id,
            resolution: ToolCallResolution::SyntheticDuplicate,
        },
        call_id,
    );
}

proof fn lemma_completion_keeps_calls(
    runtime: EnhancedSessionRuntimeView,
    id: Seq<char>,
    succeeded: bool,
    result_text: Option<Seq<char>>,
    call_id: Seq<char>,
)
    ensures
        ({
            let after = runtime.after_completion(id, succeeded, result_text);
            &&& after.ledger_restored == runtime.ledger_restored
            &&& keeps_call(runtime.hooks.ledger, after.hooks.ledger, call_id)
        }),
{
    let ledger = runtime.hooks.ledger;
    tool_reliability::law_ledger_remembers(ledger, LedgerStep::Result { call_id: id }, call_id);
    tool_reliability::law_ledger_remembers(
        ledger.with_result(id),
        LedgerStep::Resolution { call_id: id, resolution: result_resolution(succeeded) },
        call_id,
    );
}

proof fn lemma_step_keeps_calls(
    runtime: EnhancedSessionRuntimeView,
    step: SessionStep,
    call_id: Seq<char>,
)
    requires
        runtime.ledger_restored,
    ensures
        step_session(runtime, step).ledger_restored,
        keeps_call(runtime.hooks.ledger, step_session(runtime, step).hooks.ledger, call_id),
{
    reveal(step_session);
    match step {
        SessionStep::Call { call } => {
            lemma_call_keeps_calls(runtime, call, call_id);
        },
        SessionStep::Completion { call_id: id, succeeded, result_text } => {
            lemma_completion_keeps_calls(runtime, id, succeeded, result_text, call_id);
        },
        _ => {
            lemma_ledger_stays(runtime, step);
        },
    }
}

/// What the ledger knows of a call.
pub open spec fn known_call(
    runtime: EnhancedSessionRuntimeView,
    call_id: Seq<char>,
) -> Option<HandledToolCallView> {
    runtime.hooks.ledger.lookup(call_id)
}

/// Whether the model has seen the result of a call.
pub open spec fn is_delivered(runtime: EnhancedSessionRuntimeView, call_id: Seq<char>) -> bool {
    known_call(runtime, call_id) matches Some(known) && known.original_result_delivered
}

/// Whether the model has seen an answer to a duplicate of a call.
pub open spec fn is_duplicated(runtime: EnhancedSessionRuntimeView, call_id: Seq<char>) -> bool {
    known_call(runtime, call_id) matches Some(known) && known.synthetic_duplicate_emitted
}

proof fn lemma_other_calls_stay(
    runtime: EnhancedSessionRuntimeView,
    step: SessionStep,
    call_id: Seq<char>,
)
    requires
        known_call(runtime, call_id) is Some,
        match step {
            SessionStep::Call { call } => call.call_id != call_id,
            SessionStep::Completion { call_id: id, .. } => id != call_id,
            _ => false,
        },
    ensures
        known_call(step_session(runtime, step), call_id) == known_call(runtime, call_id),
{
    reveal(step_session);
    let ledger = runtime.hooks.ledger;
    match step {
        SessionStep::Call { call } => {
            tool_reliability::law_one_call_at_a_time(
                ledger,
                LedgerStep::Call { identity: call.identity() },
                call_id,
            );
            tool_reliability::law_one_call_at_a_time(
                ledger.with_call(call.identity()),
                LedgerStep::Resolution {
                    call_id: call.call_id,
                    resolution: ToolCallResolution::SyntheticDuplicate,
                },
                call_id,
            );
        },
        SessionStep::Completion { call_id: id, succeeded, .. } => {
            tool_reliability::law_one_call_at_a_time(
                ledger,
                LedgerStep::Result { call_id: id },
                call_id,
            );
            tool_reliability::law_one_call_at_a_time(
                ledger.with_result(id),
                LedgerStep::Resolution { call_id: id, resolution: result_resolution(succeeded) },
                call_id,
            );
        },
        _ => {},
    }
}

proof fn lemma_step_effects(
    runtime: EnhancedSessionRuntimeView,
    step: SessionStep,
    call_id: Seq<char>,
)
    requires
        runtime.ledger_restored,
        runtime.hooks.features.qwen_tool_reliability,
    ensures
        ({
            let after = step_session(runtime, step);
            &&& executes(runtime, step, call_id) ==> known_call(runtime, call_id) is None
                && known_call(after, call_id) is Some
            &&& known_call(runtime, call_id) is Some && forwards(runtime, step, call_id)
                ==> !is_delivered(runtime, call_id) && !is_duplicated(runtime, call_id)
                && is_delivered(after, call_id)
            &&& answers_duplicate(runtime, step, call_id) ==> !is_delivered(runtime, call_id)
                && is_duplicated(after, call_id)
        }),
{
    reveal(step_session);
    let ledger = runtime.hooks.ledger;
    lemma_step_keeps_calls(runtime, step, call_id);
    match step {
        SessionStep::Call { call } => {
            tool_reliability::law_call_is_found(ledger, call.identity());
            if ledger.lookup(call.call_id) is Some {
                tool_reliability::law_resolution_is_found(
                    ledger,
                    call.call_id,
                    ToolCallResolution::SyntheticDuplicate,
                );
            }
        },
        SessionStep::Completion { call_id: id, succeeded, .. } => {
            if ledger.lookup(id) is Some {
                tool_reliability::law_result_is_found(ledger, id);
                tool_reliability::law_ledger_remembers(
                    ledger.with_result(id),
                    LedgerStep::Resolution {
                        call_id: id,
                        resolution: result_resolution(succeeded),
                    },
                    call_id,
                );
            }
        },
        _ => {},
    }
}

proof fn lemma_run_keeps(
    runtime: EnhancedSessionRuntimeView,
    steps: Seq<SessionStep>,
    call_id: Seq<char>,
)
    requires
        runtime.ledger_restored,
    ensures
        run_session(runtime, steps).ledger_restored,
        run_session(runtime, steps).hooks.features == runtime.hooks.features,
        keeps_call(runtime.hooks.ledger, run_session(runtime, steps).hooks.ledger, call_id),
    decreases steps.len(),
{
    if steps.len() > 0 {
        lemma_run_keeps(runtime, steps.drop_last(), call_id);
        let before = run_session(runtime, steps.drop_last());
        lemma_step_keeps_calls(before, steps.last(), call_id);
        law_switches_stay(before, steps.last());
    }
}

/// Whatever happens in a session whose ledger is in place, a call is executed at
/// most once, and not at all if the ledger knows it from the start.
pub proof fn law_session_executes_once(
    runtime: EnhancedSessionRuntimeView,
    steps: Seq<SessionStep>,
    call_id: Seq<char>,
)
    requires
        runtime.ledger_restored,
        runtime.hooks.features.qwen_tool_reliability,
    ensures
        executions(runtime, steps, call_id) <= 1,
        known_call(runtime, call_id) is Some ==> executions(runtime, steps, call_id) == 0,
        executions(runtime, steps, call_id) == 1 ==> known_call(
            run_session(runtime, steps),
            call_id,
        ) is Some,
    decreases steps.len(),
{
    if steps.len() > 0 {
        let before = run_session(runtime, steps.drop_last());
        law_session_executes_once(runtime, steps.drop_last(), call_id);
        lemma_run_keeps(runtime, steps.drop_last(), call_id);
        lemma_step_effects(before, steps.last(), call_id);
        lemma_step_keeps_calls(before, steps.last(), call_id);
    }
}

/// Whatever happens in a session whose ledger is in place, the model sees the
/// result of a known call at most once, and never both the result and an answer to
/// a duplicate of the call. Once it has seen the result it sees nothing more of the
/// call.
pub proof fn law_session_delivers_once(
    runtime: EnhancedSessionRuntimeView,
    steps: Seq<SessionStep>,
    call_id: Seq<char>,
)
    requires
        runtime.ledger_restored,
        runtime.hooks.features.qwen_tool_reliability,
        known_call(runtime, call_id) is Some,
    ensures
        forwarded(runtime, steps, call_id) <= 1,
        is_duplicated(runtime, call_id) ==> forwarded(runtime, steps, call_id) == 0,
        is_delivered(runtime, call_id) ==> forwarded(runtime, steps, call_id) == 0
            && duplicates_answered(runtime, steps, call_id) == 0,
        forwarded(runtime, steps, call_id) == 0 || duplicates_answered(runtime, steps, call_id)
            == 0,
        duplicates_answered(runtime, steps, call_id) > 0 ==> is_duplicated(
            run_session(runtime, steps),
            call_id,
        ),
        forwarded(runtime, steps, call_id) == 1 ==> is_delivered(
            run_session(runtime, steps),
            call_id,
        ),
    decreases steps.len(),
{
    if steps.len() > 0 {
        let before = run_session(runtime, steps.drop_last());
        law_session_delivers_once(runtime, steps.drop_last(), call_id);
        lemma_run_keeps(runtime, steps.drop_last(), call_id);
        lemma_step_effects(before, steps.last(), call_id);
        lemma_step_keeps_calls(before, steps.last(), call_id);
    }
}

proof fn lemma_call_causes(runtime: EnhancedSessionRuntimeView, call: ToolCallView)
    requires
        runtime.hooks.features.qwen_tool_reliability,
        known_call(runtime, call.call_id) is Some,
    ensures
        ({
            let step = SessionStep::Call { call };
            let after = runtime.after_call(call);
            &&& is_delivered(after, call.call_id) == is_delivered(runtime, call.call_id)
            &&& is_duplicated(after, call.call_id) ==> is_duplicated(runtime, call.call_id)
                || is_delivered(runtime, call.call_id) || answers_duplicate(
                runtime,
                step,
                call.call_id,
            )
        }),
{
    tool_reliability::law_resolution_is_found(
        runtime.hooks.ledger,
        call.call_id,
        ToolCallResolution::SyntheticDuplicate,
    );
    tools::law_answers_are_no_markers(call.call_id);
}

proof fn lemma_completion_causes(
    runtime: EnhancedSessionRuntimeView,
    call_id: Seq<char>,
    succeeded: bool,
    result_text: Option<Seq<char>>,
)
    requires
        runtime.hooks.features.qwen_tool_reliability,
        known_call(runtime, call_id) is Some,
    ensures
        ({
            let after = runtime.after_completion(call_id, succeeded, result_text);
            let unseen = !is_delivered(runtime, call_id) && !is_duplicated(runtime, call_id);
            &&& unseen == (runtime.completion(call_id, succeeded, result_text) is Ok)
            &&& is_delivered(after, call_id) == (is_delivered(runtime, call_id) || unseen)
            &&& is_duplicated(after, call_id) == is_duplicated(runtime, call_id)
        }),
{
    let ledger = runtime.hooks.ledger;
    tool_reliability::law_result_is_found(ledger, call_id);
    tool_reliability::law_resolution_is_found(
        ledger.with_result(call_id),
        call_id,
        result_resolution(succeeded),
    );
}

proof fn lemma_step_causes(
    runtime: EnhancedSessionRuntimeView,
    step: SessionStep,
    call_id: Seq<char>,
)
    requires
        runtime.ledger_restored,
        runtime.hooks.features.qwen_tool_reliability,
        known_call(runtime, call_id) is Some,
    ensures
        ({
            let after = step_session(runtime, step);
            &&& is_delivered(after, call_id) ==> is_delivered(runtime, call_id) || forwards(
                runtime,
                step,
                call_id,
            )
            &&& is_duplicated(after, call_id) ==> is_duplicated(runtime, call_id)
                || is_delivered(runtime, call_id) || answers_duplicate(runtime, step, call_id)
            &&& completes(step, call_id) ==> is_delivered(after, call_id) || is_duplicated(
                after,
                call_id,
            )
        }),
{
    reveal(step_session);
    match step {
        SessionStep::Call { call } => {
            if call.call_id == call_id {
                lemma_call_causes(runtime, call);
            } else {
                lemma_other_calls_stay(runtime, step, call_id);
            }
        },
        SessionStep::Completion { call_id: id, succeeded, result_text } => {
            if id == call_id {
                lemma_completion_causes(runtime, call_id, succeeded, result_text);
            } else {
                lemma_other_calls_stay(runtime, step, call_id);
            }
        },
        _ => {
            lemma_ledger_stays(runtime, step);
        },
    }
}

/// Whether a step brings the result of a call.
pub open spec fn completes(step: SessionStep, call_id: Seq<char>) -> bool {
    match step {
        SessionStep::Completion { call_id: id, .. } => id == call_id,
        _ => false,
    }
}

proof fn lemma_shown(
    runtime: EnhancedSessionRuntimeView,
    steps: Seq<SessionStep>,
    call_id: Seq<char>,
)
    requires
        runtime.ledger_restored,
        runtime.hooks.features.qwen_tool_reliability,
        known_call(runtime, call_id) is Some,
        !is_delivered(runtime, call_id),
        !is_duplicated(runtime, call_id),
    ensures
        is_delivered(run_session(runtime, steps), call_id) ==> forwarded(runtime, steps, call_id)
            > 0,
        is_duplicated(run_session(runtime, steps), call_id) ==> forwarded(runtime, steps, call_id)
            > 0 || duplicates_answered(runtime, steps, call_id) > 0,
        (exists|i: int| 0 <= i < steps.len() && completes(#[trigger] steps[i], call_id))
            ==> is_delivered(run_session(runtime, steps), call_id) || is_duplicated(
            run_session(runtime, steps),
            call_id,
        ),
    decreases steps.len(),
{
    if steps.len() > 0 {
        let front = steps.drop_last();
        let before = run_session(runtime, front);
        lemma_shown(runtime, front, call_id);
        lemma_run_keeps(runtime, front, call_id);
        lemma_step_causes(before, steps.last(), call_id);
        lemma_step_keeps_calls(before, steps.last(), call_id);
        assert forall|i: int| 0 <= i < steps.len() && completes(#[trigger] steps[i], call_id)
            && i < front.len() implies completes(front[i], call_id) by {
            assert(front[i] == steps[i]);
        }
    }
}

/// A call that was executed and whose result comes in is answered in exactly one
/// way, whatever else happens: the model sees either the result, once, or the answer
/// to a duplicate of the call.
pub proof fn law_session_answers_in_one_way(
    runtime: EnhancedSessionRuntimeView,
    steps: Seq<SessionStep>,
    call_id: Seq<char>,
)
    requires
        runtime.ledger_restored,
        runtime.hooks.features.qwen_tool_reliability,
        known_call(runtime, call_id) is Some,
        !is_delivered(runtime, call_id),
        !is_duplicated(runtime, call_id),
        exists|i: int| 0 <= i < steps.len() && completes(#[trigger] steps[i], call_id),
    ensures
        (forwarded(runtime, steps, call_id) == 1) != (duplicates_answered(runtime, steps, call_id)
            > 0),
        forwarded(runtime, steps, call_id) <= 1,
{
    lemma_shown(runtime, steps, call_id);
    law_session_delivers_once(runtime, steps, call_id);
}

/// Whether a step makes a continuation count as used.
pub open spec fn commits(runtime: EnhancedSessionRuntimeView, step: SessionStep) -> bool {
    step is Commit && runtime.hooks.any_on() && (runtime.pending_continuation matches Some(reserved)
        && runtime.hooks.continuation.reserved == Some(reserved.index))
}

/// Whether a step gives the whole budget of continuations back.
pub open spec fn restores_continuations(step: SessionStep) -> bool {
    match step {
        SessionStep::UserInput => true,
        SessionStep::Stop { context } => context.user_steer_pending,
        _ => false,
    }
}

/// Whether a step gives the budget of retries back.
pub open spec fn restores_retries(step: SessionStep) -> bool {
    match step {
        SessionStep::UserInput | SessionStep::AssistantSuccess | SessionStep::Idle => true,
        SessionStep::Stop { context } => context.user_steer_pending,
        _ => false,
    }
}

/// Whether a step sends a request again.
pub open spec fn retries(runtime: EnhancedSessionRuntimeView, step: SessionStep) -> bool {
    match step {
        SessionStep::Overflow {
            items,
            forced_trigger_tokens,
            context_window_tokens,
            cancelled,
        } => context::overflow_answer(
            runtime,
            items,
            forced_trigger_tokens,
            context_window_tokens,
            cancelled,
        ) is Retry,
        SessionStep::RetryDecision { before, items, cancelled } => context::retry_decision(
            runtime,
            before,
            items,
            cancelled,
        ) is Retry,
        _ => false,
    }
}

proof fn lemma_step_counts_continuations(runtime: EnhancedSessionRuntimeView, step: SessionStep)
    requires
        runtime.well_formed(),
        !restores_continuations(step),
    ensures
        step_session(runtime, step).hooks.continuation.used == runtime.hooks.continuation.used + (
        if commits(runtime, step) {
            1int
        } else {
            0int
        }),
{
    reveal(step_session);
}

/// As long as the user does not speak, a session goes on by itself at most twice,
/// whatever else happens in it.
pub proof fn law_session_continues_twice(
    runtime: EnhancedSessionRuntimeView,
    steps: Seq<SessionStep>,
)
    requires
        runtime.well_formed(),
        forall|i: int| 0 <= i < steps.len() ==> !restores_continuations(#[trigger] steps[i]),
    ensures
        run_session(runtime, steps).well_formed(),
        run_session(runtime, steps).hooks.continuation.used == runtime.hooks.continuation.used
            + occurrences(
            runtime,
            steps,
            |rt: EnhancedSessionRuntimeView, step: SessionStep| commits(rt, step),
        ),
        occurrences(
            runtime,
            steps,
            |rt: EnhancedSessionRuntimeView, step: SessionStep| commits(rt, step),
        ) <= MAX_AUTO_CONTINUATIONS,
    decreases steps.len(),
{
    if steps.len() > 0 {
        let front = steps.drop_last();
        let before = run_session(runtime, front);
        assert forall|i: int| 0 <= i < front.len() implies !restores_continuations(
            #[trigger] front[i],
        ) by {
            assert(front[i] == steps[i]);
        }
        law_session_continues_twice(runtime, front);
        lemma_step_counts_continuations(before, steps.last());
        law_session_stays_well_formed(before, steps.last(), runtime.hooks.features);
        assert(steps.last() == steps[steps.len() - 1]);
    }
}

proof fn lemma_step_counts_retries(runtime: EnhancedSessionRuntimeView, step: SessionStep)
    requires
        runtime.well_formed(),
        !restores_retries(step),
    ensures
        step_session(runtime, step).hooks.overflow_retries_used
            == runtime.hooks.overflow_retries_used + (if retries(runtime, step) {
            1int
        } else {
            0int
        }),
{
    reveal(step_session);
}

/// As long as neither the user nor the model speaks and no turn ends, a request
/// that overflowed is sent again at most once, whatever else happens.
pub proof fn law_session_retries_once(
    runtime: EnhancedSessionRuntimeView,
    steps: Seq<SessionStep>,
)
    requires
        runtime.well_formed(),
        forall|i: int| 0 <= i < steps.len() ==> !restores_retries(#[trigger] steps[i]),
    ensures
        run_session(runtime, steps).hooks.overflow_retries_used
            == runtime.hooks.overflow_retries_used + occurrences(
            runtime,
            steps,
            |rt: EnhancedSessionRuntimeView, step: SessionStep| retries(rt, step),
        ),
        run_session(runtime, steps).well_formed(),
        occurrences(
            runtime,
            steps,
            |rt: EnhancedSessionRuntimeView, step: SessionStep| retries(rt, step),
        ) <= MAX_CONTEXT_OVERFLOW_RETRIES,
    decreases steps.len(),
{
    if steps.len() > 0 {
        let front = steps.drop_last();
        let before = run_session(runtime, front);
        assert forall|i: int| 0 <= i < front.len() implies !restores_retries(
            #[trigger] front[i],
        ) by {
            assert(front[i] == steps[i]);
        }
        law_session_retries_once(runtime, front);
        lemma_step_counts_retries(before, steps.last());
        law_session_stays_well_formed(before, steps.last(), runtime.hooks.features);
        assert(steps.last() == steps[steps.len() - 1]);
    }
}

/// The ledger is made from the history once: where the port is on and it was not made
/// before. From then on, and with the port off, the history changes nothing.
pub proof fn law_the_ledger_is_made_once(
    runtime: EnhancedSessionRuntimeView,
    history: Seq<ResponseItemView>,
    later: Seq<ResponseItemView>,
)
    ensures
        ({
            let after = step_session(runtime, SessionStep::Restore { history });
            let due = runtime.hooks.features.qwen_tool_reliability && !runtime.ledger_restored;
            &&& due ==> after.ledger_restored && after.hooks.ledger == tools::history_ledger(
                history,
            )
            &&& !due ==> after == runtime
            &&& step_session(after, SessionStep::Restore { history: later }) == after
            &&& after.telemetry == runtime.telemetry
        }),
{
    reveal(step_session);
}

/// After a compaction, with recovery on, no replacement is left and the generation goes
/// on; it is reported where there was one. With recovery off nothing changes.
pub proof fn law_compaction_forgets_replacements(runtime: EnhancedSessionRuntimeView)
    ensures
        ({
            let after = step_session(runtime, SessionStep::Compaction);
            let on = runtime.hooks.features.deepseek_context_recovery;
            let held = runtime.context_projections.records.len() > 0;
            let n = runtime.telemetry.len() as int;
            &&& !on ==> after == runtime
            &&& on ==> after.context_projections.records.len() == 0
            &&& on && runtime.context_projections.generation < u64::MAX
                ==> after.context_projections.generation == runtime.context_projections.generation
                + 1
            &&& on && !held ==> after.telemetry == runtime.telemetry
            &&& on && held ==> after.telemetry.len() == n + 1 && after.telemetry[n].kind
                == EnhancedEventKind::ContextProjectionCleared
            &&& after.hooks == runtime.hooks
        }),
{
    reveal(step_session);
}

/// The user's words, an answer of the model and the end of a turn do to a session what
/// they are for: what is pending goes, and the budgets come back.
pub proof fn law_turns_restore_what_they_should(runtime: EnhancedSessionRuntimeView)
    requires
        runtime.hooks.features.deepseek_context_recovery
            || runtime.hooks.features.qwen_bounded_continuation
            || runtime.hooks.features.qwen_tool_reliability,
    ensures
        ({
            let spoken = step_session(runtime, SessionStep::UserInput);
            let answered = step_session(runtime, SessionStep::AssistantSuccess);
            let over = step_session(runtime, SessionStep::Idle);
            let failed = step_session(runtime, SessionStep::Release);
            &&& spoken.pending_continuation is None && over.pending_continuation is None
                && failed.pending_continuation is None
            &&& answered.pending_continuation == runtime.pending_continuation
            &&& spoken.hooks.overflow_retries_used == 0 && answered.hooks.overflow_retries_used
                == 0 && over.hooks.overflow_retries_used == 0
            &&& failed.hooks.overflow_retries_used == runtime.hooks.overflow_retries_used
            &&& spoken.hooks.continuation.used == 0
            &&& answered.hooks.continuation == runtime.hooks.continuation
            &&& over.hooks.continuation.used == runtime.hooks.continuation.used
                && failed.hooks.continuation.used == runtime.hooks.continuation.used
            &&& spoken.hooks.continuation.reserved is None && over.hooks.continuation.reserved
                is None && failed.hooks.continuation.reserved is None
            &&& spoken.pending_repetition_notices == Set::<Seq<char>>::empty()
                && over.pending_repetition_notices == Set::<Seq<char>>::empty()
            &&& !spoken.pending_standalone_repetition_notice
                && !over.pending_standalone_repetition_notice
            &&& spoken.hooks.ledger == runtime.hooks.ledger && over.hooks.ledger
                == runtime.hooks.ledger && answered.hooks.ledger == runtime.hooks.ledger
            &&& spoken.context_projections == runtime.context_projections
                && over.context_projections == runtime.context_projections
        }),
{
    reveal(step_session);
}

} // verus!
