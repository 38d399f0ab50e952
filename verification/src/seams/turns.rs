//! The turns of a session: what starts anew with the user's words, and what goes
//! on without them.

use crate::bounded_continuation;
use crate::bounded_continuation::{
    ContinuationDecision, ReservedContinuation, TurnStopContext, TurnStopContextView,
    UnfinishedSignal,
};
use crate::hooks::{EnhancedTurnHooksView, HookDecision};
use crate::response_items::{ResponseItem, ResponseItemView};
use crate::runtime::{EnhancedSessionRuntime, EnhancedSessionRuntimeView};
use crate::search;
use crate::seams::session;
use crate::seams::session::SessionStep;
use crate::text;
use vstd::prelude::*;

verus! {

impl EnhancedSessionRuntimeView {
    /// The runtime without anything that is pending.
    pub open spec fn settled(self) -> Self {
        EnhancedSessionRuntimeView {
            pending_continuation: None,
            pending_repetition_notices: Set::empty(),
            pending_standalone_repetition_notice: false,
            ..self
        }
    }
}

/// The user has spoken: nothing is pending any more, and all budgets start anew.
pub fn on_new_user_input(runtime: &mut EnhancedSessionRuntime)
    ensures
        final(runtime)@ == session::step_session(old(runtime)@, SessionStep::UserInput),
        final(runtime)@ == (EnhancedSessionRuntimeView {
            hooks: old(runtime)@.hooks.after_user_input(),
            ..old(runtime)@.settled()
        }),
{
    proof {
        reveal(session::step_session);
    }
    runtime.pending_continuation = None;
    runtime.pending_repetition_notices.clear();
    runtime.pending_standalone_repetition_notice = false;
    runtime.hooks.on_new_user_input();
}

/// The model has answered: a later overflow may be retried again.
pub fn on_assistant_success(runtime: &mut EnhancedSessionRuntime)
    ensures
        final(runtime)@ == session::step_session(old(runtime)@, SessionStep::AssistantSuccess),
        final(runtime)@ == (EnhancedSessionRuntimeView {
            hooks: old(runtime)@.hooks.after_success(),
            ..old(runtime)@
        }),
{
    proof {
        reveal(session::step_session);
    }
    runtime.hooks.on_assistant_success();
}

/// The turn is over: nothing is pending any more, and what was reserved is given
/// up.
pub fn on_turn_idle(runtime: &mut EnhancedSessionRuntime)
    ensures
        final(runtime)@ == session::step_session(old(runtime)@, SessionStep::Idle),
        final(runtime)@ == (EnhancedSessionRuntimeView {
            hooks: old(runtime)@.hooks.after_idle(),
            ..old(runtime)@.settled()
        }),
{
    proof {
        reveal(session::step_session);
    }
    runtime.pending_continuation = None;
    runtime.pending_repetition_notices.clear();
    runtime.pending_standalone_repetition_notice = false;
    runtime.hooks.on_turn_idle();
}

/// How far a step of a plan has come.
#[derive(Debug, Clone, Copy, PartialEq, Eq, Structural)]
pub enum StepStatus {
    Pending,
    InProgress,
    Completed,
}

/// The tool by which the model states its plan.
pub const PLAN_TOOL: &'static str = "update_plan";

/// Whether the item at a position states a plan.
pub open spec fn states_plan(items: Seq<ResponseItemView>) -> spec_fn(int) -> bool {
    |i: int| items[i] matches ResponseItemView::FunctionCall { name, .. } && name == PLAN_TOOL@
}

/// Whether an item says that a call succeeded.
pub open spec fn says_success(item: ResponseItemView, call_id: Seq<char>) -> bool {
    item matches ResponseItemView::FunctionCallOutput { call_id: id, output, .. } && id == Some(
        call_id,
    ) && output.success == Some(true)
}

/// Whether the call at a position succeeded, by what comes after it.
pub open spec fn succeeded_later(
    items: Seq<ResponseItemView>,
    i: int,
    call_id: Seq<char>,
) -> bool {
    exists|j: int| i < j < items.len() && says_success(#[trigger] items[j], call_id)
}

/// The arguments of the last plan, if it was accepted. The arguments are the
/// model's own words; only the tool's success makes them count.
pub open spec fn accepted_plan(items: Seq<ResponseItemView>) -> Option<Seq<char>> {
    let last = search::last_below(items.len(), states_plan(items));
    if last < 0 {
        None
    } else {
        match items[last] {
            ResponseItemView::FunctionCall { call_id, arguments, .. } => if succeeded_later(
                items,
                last,
                call_id,
            ) {
                Some(arguments)
            } else {
                None
            },
            _ => None,
        }
    }
}

/// The arguments of the last plan, if it was accepted.
pub fn accepted_plan_arguments(items: &Vec<ResponseItem>) -> (r: Option<String>)
    ensures
        r.deep_view() == accepted_plan(items.deep_view()),
{
    let ghost all = items.deep_view();
    let ghost n = all.len();
    let ghost plan = states_plan(all);
    let mut left: usize = items.len();
    while left > 0
        invariant
            left <= items.len(),
            all == items.deep_view(),
            n == all.len(),
            plan == states_plan(all),
            forall|i: int| left <= i < n ==> !#[trigger] plan(i),
        decreases left,
    {
        let i: usize = left - 1;
        assert(all[i as int] == items@[i as int]@);
        if let ResponseItem::FunctionCall { call_id, name, arguments } = &items[i] {
            if text::same_text(name.as_str(), PLAN_TOOL) {
                proof {
                    assert(plan(i as int));
                    search::lemma_last_below_is(n, plan, i as int);
                }
                return if call_succeeded(items, i, call_id.as_str()) {
                    Some(arguments.clone())
                } else {
                    None
                };
            }
        }
        assert(!plan(i as int));
        left = i;
    }
    proof {
        search::lemma_last_below_is(n, plan, -1);
    }
    None
}

/// Tells whether the call at a position succeeded, by what comes after it.
fn call_succeeded(items: &Vec<ResponseItem>, i: usize, call_id: &str) -> (r: bool)
    requires
        i < items.len(),
    ensures
        r == succeeded_later(items.deep_view(), i as int, call_id@),
{
    let ghost all = items.deep_view();
    let mut j: usize = i + 1;
    while j < items.len()
        invariant
            i < j <= items.len(),
            all == items.deep_view(),
            forall|k: int| i < k < j ==> !says_success(#[trigger] all[k], call_id@),
        decreases items.len() - j,
    {
        assert(all[j as int] == items@[j as int]@);
        if let ResponseItem::FunctionCallOutput { call_id: Some(id), output, .. } = &items[j] {
            let ok: bool = match output.success {
                Some(success) => success,
                None => false,
            };
            if ok && text::same_text(id.as_str(), call_id) {
                assert(says_success(all[j as int], call_id@));
                return true;
            }
        }
        assert(!says_success(all[j as int], call_id@));
        j = j + 1;
    }
    false
}

/// Whether a plan has steps that are not done.
pub open spec fn has_open_steps(steps: Option<Seq<StepStatus>>) -> bool {
    steps matches Some(s) && exists|i: int|
        0 <= i < s.len() && #[trigger] s[i] != StepStatus::Completed
}

/// Tells whether a plan has steps that are not done.
fn open_steps(steps: &Vec<StepStatus>) -> (r: bool)
    ensures
        r == has_open_steps(Some(steps@)),
{
    let mut i: usize = 0;
    while i < steps.len()
        invariant
            i <= steps.len(),
            forall|k: int| 0 <= k < i ==> #[trigger] steps@[k] == StepStatus::Completed,
        decreases steps.len() - i,
    {
        if steps[i] != StepStatus::Completed {
            assert(steps@[i as int] != StepStatus::Completed);
            return true;
        }
        i = i + 1;
    }
    false
}

/// The steps of a plan, if it could be decoded.
pub open spec fn steps_of(plan: Option<Vec<StepStatus>>) -> Option<Seq<StepStatus>> {
    match plan {
        Some(steps) => Some(steps@),
        None => None,
    }
}

/// The evidence in a history that the work is not done.
pub open spec fn unfinished_signals(
    items: Seq<ResponseItemView>,
    plan: Option<Seq<StepStatus>>,
) -> Seq<UnfinishedSignal> {
    if accepted_plan(items) is Some && has_open_steps(plan) {
        seq![UnfinishedSignal::NativePlanIncomplete]
    } else {
        seq![]
    }
}

/// The evidence in a history that the work is not done. `plan` holds the steps
/// that the arguments of the accepted plan state, if they could be decoded.
pub fn unfinished_from_items(items: &Vec<ResponseItem>, plan: &Option<Vec<StepStatus>>) -> (r: Vec<
    UnfinishedSignal,
>)
    ensures
        r.deep_view() == unfinished_signals(items.deep_view(), steps_of(*plan)),
{
    let mut unfinished: Vec<UnfinishedSignal> = Vec::new();
    if accepted_plan_arguments(items).is_some() {
        if let Some(steps) = plan {
            if open_steps(steps) {
                unfinished.push(UnfinishedSignal::NativePlanIncomplete);
            }
        }
    }
    assert(unfinished.deep_view() =~= unfinished_signals(items.deep_view(), steps_of(*plan)));
    unfinished
}

/// How the turn came to its stop.
pub open spec fn stop_context(
    runtime: EnhancedSessionRuntimeView,
    items: Seq<ResponseItemView>,
    plan: Option<Seq<StepStatus>>,
    cancelled: bool,
    user_steer_pending: bool,
    last_agent_message: Option<Seq<char>>,
) -> TurnStopContextView {
    TurnStopContextView {
        cancelled,
        user_steer_pending,
        unfinished: unfinished_signals(items, plan),
        intent_continuation_enabled: runtime.hooks.features.intent_continuation,
        natural_stop: true,
        assistant_final_text: last_agent_message,
    }
}

/// The runtime once a turn has stopped.
pub open spec fn after_stop(
    runtime: EnhancedSessionRuntimeView,
    context: TurnStopContextView,
) -> EnhancedSessionRuntimeView {
    if runtime.hooks.features.qwen_bounded_continuation {
        EnhancedSessionRuntimeView {
            hooks: EnhancedTurnHooksView {
                continuation: bounded_continuation::stopped_budget(
                    runtime.hooks.continuation,
                    context,
                ),
                overflow_retries_used: if context.user_steer_pending {
                    0
                } else {
                    runtime.hooks.overflow_retries_used
                },
                ..runtime.hooks
            },
            telemetry: runtime.telemetry + bounded_continuation::stop_plan(
                runtime.hooks.continuation,
                context,
            ).events,
            ..runtime
        }
    } else {
        runtime
    }
}

/// Decides whether a turn that stopped is continued. If so, the nudge has to be
/// recorded for the model, and then [`start_continuation`] called.
pub fn maybe_continue_turn(
    runtime: &mut EnhancedSessionRuntime,
    items: &Vec<ResponseItem>,
    plan: &Option<Vec<StepStatus>>,
    cancelled: bool,
    user_steer_pending: bool,
    last_agent_message: Option<String>,
) -> (r: Option<ReservedContinuation>)
    ensures
        ({
            let context = stop_context(
                old(runtime)@,
                items.deep_view(),
                steps_of(*plan),
                cancelled,
                user_steer_pending,
                last_agent_message.deep_view(),
            );
            &&& final(runtime)@ == after_stop(old(runtime)@, context)
            &&& final(runtime)@ == session::step_session(
                old(runtime)@,
                SessionStep::Stop { context },
            )
            &&& r == (if old(runtime)@.hooks.features.qwen_bounded_continuation {
                bounded_continuation::stop_plan(
                    old(runtime)@.hooks.continuation,
                    context,
                ).reservation
            } else {
                None
            })
        }),
{
    proof {
        reveal(session::step_session);
    }
    let context = TurnStopContext {
        cancelled,
        user_steer_pending,
        unfinished: unfinished_from_items(items, plan),
        intent_continuation_enabled: runtime.hooks.features.intent_continuation,
        natural_stop: true,
        assistant_final_text: last_agent_message,
    };
    let decision = runtime.hooks.on_turn_stop(&context, &mut runtime.telemetry);
    match decision {
        HookDecision::DeferToUpstream => None,
        HookDecision::Handled(plan) => match plan.decision {
            ContinuationDecision::Continue { .. } => plan.reservation,
            _ => None,
        },
    }
}

/// The nudge was recorded for the model, or it could not be. Tells whether the
/// turn goes on.
pub fn start_continuation(
    runtime: &mut EnhancedSessionRuntime,
    reserved: ReservedContinuation,
    recorded: bool,
) -> (r: bool)
    ensures
        final(runtime)@ == session::step_session(
            old(runtime)@,
            SessionStep::Start { reserved, recorded },
        ),
        r == recorded,
        final(runtime)@ == (if recorded {
            EnhancedSessionRuntimeView { pending_continuation: Some(reserved), ..old(runtime)@ }
        } else {
            EnhancedSessionRuntimeView {
                hooks: old(runtime)@.hooks.after_release(),
                ..old(runtime)@
            }
        }),
{
    proof {
        reveal(session::step_session);
    }
    if recorded {
        runtime.pending_continuation = Some(reserved);
        true
    } else {
        runtime.hooks.release_continuation();
        false
    }
}

/// The runtime once the request of the pending continuation has succeeded.
pub open spec fn after_commit(runtime: EnhancedSessionRuntimeView) -> EnhancedSessionRuntimeView {
    match runtime.pending_continuation {
        Some(reserved) => {
            EnhancedSessionRuntimeView {
                hooks: if runtime.hooks.continuation.reserved == Some(reserved.index) {
                    runtime.hooks.after_commit(reserved)
                } else {
                    runtime.hooks.after_release()
                },
                pending_continuation: None,
                ..runtime
            }
        },
        None => runtime,
    }
}

/// The request of the pending continuation has succeeded: it counts as used.
pub fn commit_pending_continuation(runtime: &mut EnhancedSessionRuntime)
    ensures
        final(runtime)@ == session::step_session(old(runtime)@, SessionStep::Commit),
        final(runtime)@ == after_commit(old(runtime)@),
{
    proof {
        reveal(session::step_session);
    }
    match runtime.pending_continuation {
        Some(reserved) => {
            runtime.pending_continuation = None;
            if runtime.hooks.commit_continuation(reserved).is_err() {
                runtime.hooks.release_continuation();
            }
        },
        None => {},
    }
}

/// The request of the pending continuation has failed: it does not count.
pub fn release_pending_continuation(runtime: &mut EnhancedSessionRuntime)
    ensures
        final(runtime)@ == session::step_session(old(runtime)@, SessionStep::Release),
        final(runtime)@ == (EnhancedSessionRuntimeView {
            hooks: old(runtime)@.hooks.after_release(),
            pending_continuation: None,
            ..old(runtime)@
        }),
{
    proof {
        reveal(session::step_session);
    }
    runtime.pending_continuation = None;
    runtime.hooks.release_continuation();
}

/// A plan that the tool did not accept never makes the runtime go on, whatever
/// its steps say, and neither does an older plan in its place.
pub proof fn law_only_an_accepted_plan_counts(
    items: Seq<ResponseItemView>,
    plan: Option<Seq<StepStatus>>,
    last: int,
    call_id: Seq<char>,
)
    requires
        0 <= last < items.len(),
        items[last] matches ResponseItemView::FunctionCall { call_id: id, name, .. } && name
            == PLAN_TOOL@ && id == call_id,
        forall|i: int| last < i < items.len() ==> !#[trigger] states_plan(items)(i),
        !succeeded_later(items, last, call_id),
    ensures
        unfinished_signals(items, plan).len() == 0,
{
    search::lemma_last_below_is(items.len(), states_plan(items), last);
}

/// A continuation that was granted, started and committed counts as used exactly
/// once; one whose request failed does not count.
pub proof fn law_continuation_counts_once(
    runtime: EnhancedSessionRuntimeView,
    context: TurnStopContextView,
    reserved: ReservedContinuation,
)
    requires
        runtime.hooks.features.qwen_bounded_continuation,
        bounded_continuation::stop_plan(runtime.hooks.continuation, context).reservation == Some(
            reserved,
        ),
    ensures
        ({
            let stopped = after_stop(runtime, context);
            let started = EnhancedSessionRuntimeView {
                pending_continuation: Some(reserved),
                ..stopped
            };
            let committed = after_commit(started);
            &&& committed.hooks.continuation.used == runtime.hooks.continuation.used + 1
            &&& committed.hooks.continuation.reserved is None
            &&& committed.pending_continuation is None
            &&& after_commit(committed) == committed
            &&& stopped.hooks.after_release().continuation.used == runtime.hooks.continuation.used
        }),
{
}

/// Whether an item is a call that states a plan.
pub open spec fn is_plan_call(item: ResponseItemView, call_id: Seq<char>) -> bool {
    item matches ResponseItemView::FunctionCall { call_id: id, name, .. } && id == call_id && name
        == "update_plan"@
}

/// Whether an item tells that a call succeeded.
pub open spec fn is_success_of(item: ResponseItemView, call_id: Seq<char>) -> bool {
    item matches ResponseItemView::FunctionCallOutput { call_id: Some(id), output, .. } && id
        == call_id && output.success == Some(true)
}

/// Whether a history ends with a plan that was stated at a position and accepted
/// later: no other plan is stated behind it.
pub open spec fn accepted_at(
    items: Seq<ResponseItemView>,
    call_id: Seq<char>,
    stated: int,
    told: int,
) -> bool {
    &&& 0 <= stated < told < items.len()
    &&& is_plan_call(items[stated], call_id)
    &&& is_success_of(items[told], call_id)
    &&& forall|k: int, id: Seq<char>|
        stated < k < items.len() ==> !#[trigger] is_plan_call(items[k], id)
}

proof fn lemma_accepted(
    items: Seq<ResponseItemView>,
    call_id: Seq<char>,
    stated: int,
    told: int,
)
    requires
        accepted_at(items, call_id, stated, told),
    ensures
        accepted_plan(items) == Some(items[stated]->FunctionCall_arguments),
{
    let p = states_plan(items);
    assert(p(stated));
    assert forall|k: int| stated < k < items.len() implies !#[trigger] p(k) by {
        if let ResponseItemView::FunctionCall { call_id: id, .. } = items[k] {
            assert(!is_plan_call(items[k], id));
        }
    }
    search::lemma_last_below_is(items.len(), p, stated);
    assert(says_success(items[told], call_id));
}

/// A turn goes on while its plan is not done. Where the last plan of the history was
/// accepted and any of its steps is pending or in progress, at whatever place, there
/// is something unfinished; with the port on, budget left, nobody cancelling and
/// nobody waiting to speak, the next continuation is reserved.
pub proof fn law_open_steps_keep_the_turn_going(
    runtime: EnhancedSessionRuntimeView,
    items: Seq<ResponseItemView>,
    call_id: Seq<char>,
    stated: int,
    told: int,
    steps: Seq<StepStatus>,
    i: int,
    message: Option<Seq<char>>,
)
    requires
        accepted_at(items, call_id, stated, told),
        0 <= i < steps.len(),
        steps[i] == StepStatus::Pending || steps[i] == StepStatus::InProgress,
    ensures
        unfinished_signals(items, Some(steps)).len() > 0,
        ({
            let context = stop_context(runtime, items, Some(steps), false, false, message);
            let next = ReservedContinuation { index: (runtime.hooks.continuation.used + 1) as u8 };
            runtime.hooks.features.qwen_bounded_continuation && runtime.hooks.continuation.used < 2
                ==> bounded_continuation::stop_plan(
                runtime.hooks.continuation,
                context,
            ).reservation == Some(next) && after_stop(
                runtime,
                context,
            ).hooks.continuation.reserved == Some(next.index) && after_stop(
                runtime,
                context,
            ).hooks.continuation.used == runtime.hooks.continuation.used
        }),
{
    lemma_accepted(items, call_id, stated, told);
    assert(steps[i] != StepStatus::Completed);
    assert(has_open_steps(Some(steps)));
}

/// A turn ends once its plan is done. Where all steps are completed, or no plan can be
/// read, nothing is unfinished, and without a stated intent nothing is reserved.
pub proof fn law_finished_plans_end_the_turn(
    runtime: EnhancedSessionRuntimeView,
    items: Seq<ResponseItemView>,
    plan: Option<Seq<StepStatus>>,
    cancelled: bool,
    user_steer_pending: bool,
    message: Option<Seq<char>>,
)
    requires
        plan matches Some(steps) ==> forall|i: int|
            0 <= i < steps.len() ==> #[trigger] steps[i] == StepStatus::Completed,
    ensures
        unfinished_signals(items, plan).len() == 0,
        !runtime.hooks.features.intent_continuation || message is None
            ==> bounded_continuation::stop_plan(
            runtime.hooks.continuation,
            stop_context(runtime, items, plan, cancelled, user_steer_pending, message),
        ).reservation is None,
{
}

/// Only an accepted plan keeps a turn going: where no plan was stated, or the last one
/// was not followed by word of its success, nothing is unfinished, whatever its steps.
pub proof fn law_plans_have_to_be_accepted(
    items: Seq<ResponseItemView>,
    plan: Option<Seq<StepStatus>>,
    call_id: Seq<char>,
    stated: int,
)
    requires
        -1 <= stated < items.len(),
        forall|k: int, id: Seq<char>|
            stated < k < items.len() ==> !#[trigger] is_plan_call(items[k], id),
        stated >= 0 ==> is_plan_call(items[stated], call_id) && forall|k: int|
            stated < k < items.len() ==> !#[trigger] is_success_of(items[k], call_id),
    ensures
        accepted_plan(items) is None,
        unfinished_signals(items, plan).len() == 0,
{
    let p = states_plan(items);
    assert forall|k: int| stated < k < items.len() implies !#[trigger] p(k) by {
        if let ResponseItemView::FunctionCall { call_id: id, .. } = items[k] {
            assert(!is_plan_call(items[k], id));
        }
    }
    if stated >= 0 {
        assert(p(stated));
        assert forall|k: int| stated < k < items.len() implies !says_success(
            #[trigger] items[k],
            call_id,
        ) by {
            assert(!is_success_of(items[k], call_id));
        }
    }
    search::lemma_last_below_is(items.len(), p, stated);
}

/// The plan that is looked at is the last one: its arguments are handed out to be
/// decoded.
pub proof fn law_the_last_plan_is_read(
    items: Seq<ResponseItemView>,
    call_id: Seq<char>,
    stated: int,
    told: int,
)
    requires
        accepted_at(items, call_id, stated, told),
    ensures
        items[stated] matches ResponseItemView::FunctionCall { arguments, .. } && accepted_plan(
            items,
        ) == Some(arguments),
{
    lemma_accepted(items, call_id, stated, told);
}

/// When the user has spoken or the turn is over, nothing is pending any more: neither a
/// continuation nor a notice. All else of the runtime stays.
pub proof fn law_nothing_stays_pending(runtime: EnhancedSessionRuntimeView)
    ensures
        runtime.settled().pending_continuation is None,
        runtime.settled().pending_repetition_notices == Set::<Seq<char>>::empty(),
        !runtime.settled().pending_standalone_repetition_notice,
        runtime.settled().hooks == runtime.hooks,
        runtime.settled().telemetry == runtime.telemetry,
        runtime.settled().context_projections == runtime.context_projections,
        runtime.settled().last_surface == runtime.last_surface,
        runtime.settled().ledger_restored == runtime.ledger_restored,
{
}

/// How a stop is accounted for: with the port off it changes nothing. With the port on,
/// a word that the user wants gives both budgets back; a continuation that is granted is
/// reported, and so is that none is left; else nothing is.
pub proof fn law_stops_are_accounted_for(
    runtime: EnhancedSessionRuntimeView,
    context: TurnStopContextView,
)
    ensures
        ({
            let after = after_stop(runtime, context);
            let plan = bounded_continuation::stop_plan(runtime.hooks.continuation, context);
            let on = runtime.hooks.features.qwen_bounded_continuation;
            let n = runtime.telemetry.len() as int;
            &&& !on ==> after == runtime
            &&& on && context.user_steer_pending ==> after.hooks.overflow_retries_used == 0
            &&& on && context.user_steer_pending && !context.cancelled
                ==> after.hooks.continuation.used == 0 && after.hooks.continuation.reserved is None
            &&& on && !context.user_steer_pending ==> after.hooks.overflow_retries_used
                == runtime.hooks.overflow_retries_used && after.hooks.continuation.used
                == runtime.hooks.continuation.used
            &&& on && plan.decision == bounded_continuation::ContinuationDecision::AllowStop
                ==> after.telemetry == runtime.telemetry
            &&& on && plan.decision is Continue ==> after.telemetry.len() == n + 1
                && after.telemetry[n].kind
                == crate::telemetry::EnhancedEventKind::ContinuationAllowed
                && after.telemetry[n].fields.continuation_index == Some(
                (runtime.hooks.continuation.used + 1) as u8,
            )
            &&& on && plan.decision == bounded_continuation::ContinuationDecision::Exhausted
                ==> after.telemetry.len() == n + 1 && after.telemetry[n].kind
                == crate::telemetry::EnhancedEventKind::ContinuationExhausted
            &&& after.hooks.ledger == runtime.hooks.ledger
            &&& after.context_projections == runtime.context_projections
            &&& after.pending_continuation == runtime.pending_continuation
        }),
{
}

/// A request that succeeded counts for the continuation that is pending if that is the
/// one that was reserved; otherwise what was reserved is given up. Either way nothing is
/// pending any more, and without anything pending nothing changes.
pub proof fn law_commits_settle_what_is_pending(
    runtime: EnhancedSessionRuntimeView,
    reserved: ReservedContinuation,
)
    ensures
        runtime.pending_continuation is None ==> after_commit(runtime) == runtime,
        runtime.pending_continuation == Some(reserved)
            && runtime.hooks.features.qwen_bounded_continuation ==> {
            let after = after_commit(runtime);
            &&& after.pending_continuation is None
            &&& after.hooks.continuation.reserved is None
            &&& runtime.hooks.continuation.reserved == Some(reserved.index)
                ==> after.hooks.continuation.used == reserved.index
            &&& runtime.hooks.continuation.reserved != Some(reserved.index)
                ==> after.hooks.continuation.used == runtime.hooks.continuation.used
            &&& after.hooks.ledger == runtime.hooks.ledger
            &&& after.hooks.overflow_retries_used == runtime.hooks.overflow_retries_used
        },
{
}

} // verus!
