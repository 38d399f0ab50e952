//! Continuing a turn that stopped before its work was done, a bounded number of
//! times.

use crate::telemetry;
use crate::telemetry::{
    EnhancedEvent, EnhancedEventFields, EnhancedEventFieldsView, EnhancedEventKind,
    EnhancedEventView,
};
use crate::text;
use vstd::prelude::*;

verus! {

/// What the model is told when a turn is continued.
pub const CONTINUE_NUDGE: &'static str =
    "Continue the unfinished deterministic work. Do not wait for a new user message.";

/// The end of a final text that announces further work.
pub const CONTINUE_INTENT: &'static str = "I will continue immediately.";

/// How often turns are continued between two inputs of the user.
pub const MAX_AUTO_CONTINUATIONS: u8 = 2;

/// How much of the continuations is used. A continuation is reserved when it is
/// granted, and it counts as used once its request has succeeded.
#[derive(Debug, Clone, Copy, PartialEq, Eq, Structural)]
pub struct AutoContinuationBudget {
    pub used: u8,
    pub reserved: Option<u8>,
}

impl AutoContinuationBudget {
    /// A budget of which nothing is used.
    pub open spec fn fresh() -> Self {
        AutoContinuationBudget { used: 0, reserved: None }
    }

    /// Whether the budget is within its bounds: what is reserved, if anything, is
    /// the next continuation.
    pub open spec fn well_formed(self) -> bool {
        &&& self.used <= MAX_AUTO_CONTINUATIONS
        &&& self.reserved matches Some(index) ==> index == self.used + 1 && index
            <= MAX_AUTO_CONTINUATIONS
    }

    /// Starts anew, for the user has spoken.
    pub fn reset_for_user_input(&mut self)
        ensures
            *final(self) == Self::fresh(),
    {
        self.used = 0;
        self.reserved = None;
    }
}

impl Default for AutoContinuationBudget {
    fn default() -> (r: Self)
        ensures
            r == Self::fresh(),
    {
        AutoContinuationBudget { used: 0, reserved: None }
    }
}

/// A continuation that was granted.
#[derive(Debug, Clone, Copy, PartialEq, Eq, Structural)]
pub struct ReservedContinuation {
    pub index: u8,
}

/// Evidence that the work is not done.
#[derive(Debug, Clone, Copy, PartialEq, Eq, Structural)]
pub enum UnfinishedSignal {
    /// The plan that was accepted last has open steps.
    NativePlanIncomplete,
}

impl DeepView for UnfinishedSignal {
    type V = UnfinishedSignal;

    open spec fn deep_view(&self) -> UnfinishedSignal {
        *self
    }
}

/// How a turn came to its stop.
#[derive(Debug, PartialEq, Eq)]
pub struct TurnStopContext {
    pub cancelled: bool,
    /// The user has spoken meanwhile.
    pub user_steer_pending: bool,
    pub unfinished: Vec<UnfinishedSignal>,
    pub intent_continuation_enabled: bool,
    /// The model stopped by itself.
    pub natural_stop: bool,
    pub assistant_final_text: Option<String>,
}

/// The model of [`TurnStopContext`].
#[verifier::ext_equal]
pub struct TurnStopContextView {
    pub cancelled: bool,
    pub user_steer_pending: bool,
    pub unfinished: Seq<UnfinishedSignal>,
    pub intent_continuation_enabled: bool,
    pub natural_stop: bool,
    pub assistant_final_text: Option<Seq<char>>,
}

impl View for TurnStopContext {
    type V = TurnStopContextView;

    open spec fn view(&self) -> TurnStopContextView {
        TurnStopContextView {
            cancelled: self.cancelled,
            user_steer_pending: self.user_steer_pending,
            unfinished: self.unfinished.deep_view(),
            intent_continuation_enabled: self.intent_continuation_enabled,
            natural_stop: self.natural_stop,
            assistant_final_text: self.assistant_final_text.deep_view(),
        }
    }
}

impl DeepView for TurnStopContext {
    type V = TurnStopContextView;

    open spec fn deep_view(&self) -> TurnStopContextView {
        self@
    }
}

impl Clone for TurnStopContext {
    fn clone(&self) -> (r: Self)
        ensures
            r@ == self@,
    {
        TurnStopContext {
            cancelled: self.cancelled,
            user_steer_pending: self.user_steer_pending,
            unfinished: self.unfinished.clone(),
            intent_continuation_enabled: self.intent_continuation_enabled,
            natural_stop: self.natural_stop,
            assistant_final_text: self.assistant_final_text.clone(),
        }
    }
}

impl Default for TurnStopContext {
    fn default() -> (r: Self)
        ensures
            r@ == (TurnStopContextView {
                cancelled: false,
                user_steer_pending: false,
                unfinished: seq![],
                intent_continuation_enabled: false,
                natural_stop: false,
                assistant_final_text: None,
            }),
    {
        let unfinished: Vec<UnfinishedSignal> = Vec::new();
        assert(unfinished.deep_view() =~= seq![]);
        TurnStopContext {
            cancelled: false,
            user_steer_pending: false,
            unfinished,
            intent_continuation_enabled: false,
            natural_stop: false,
            assistant_final_text: None,
        }
    }
}

/// Whether a turn is continued.
#[derive(Debug, Clone, Copy, PartialEq, Eq, Structural)]
pub enum ContinuationDecision {
    Continue { index: u8 },
    AllowStop,
    Exhausted,
}

/// What is done about a turn that stopped.
#[derive(Debug, PartialEq, Eq)]
pub struct ContinuationPlan {
    pub decision: ContinuationDecision,
    pub reservation: Option<ReservedContinuation>,
    pub events: Vec<EnhancedEvent>,
}

/// The model of [`ContinuationPlan`].
#[verifier::ext_equal]
pub struct ContinuationPlanView {
    pub decision: ContinuationDecision,
    pub reservation: Option<ReservedContinuation>,
    pub events: Seq<EnhancedEventView>,
}

impl View for ContinuationPlan {
    type V = ContinuationPlanView;

    open spec fn view(&self) -> ContinuationPlanView {
        ContinuationPlanView {
            decision: self.decision,
            reservation: self.reservation,
            events: self.events.deep_view(),
        }
    }
}

impl DeepView for ContinuationPlan {
    type V = ContinuationPlanView;

    open spec fn deep_view(&self) -> ContinuationPlanView {
        self@
    }
}

impl Clone for ContinuationPlan {
    fn clone(&self) -> (r: Self)
        ensures
            r@ == self@,
    {
        ContinuationPlan {
            decision: self.decision,
            reservation: self.reservation,
            events: self.events.clone(),
        }
    }
}

/// Why a continuation cannot count as used.
#[derive(Debug, Clone, Copy, PartialEq, Eq, Structural)]
pub enum ContinuationCommitError {
    /// It is not the one that is reserved.
    NotReserved,
}

impl TurnStopContextView {
    /// Whether the model stopped by itself after announcing that it goes on.
    pub open spec fn intends_to_continue(self) -> bool {
        &&& self.intent_continuation_enabled
        &&& self.natural_stop
        &&& self.assistant_final_text matches Some(t) && text::ends_with(
            text::trimmed(t),
            CONTINUE_INTENT@,
        )
    }

    /// Whether there is a reason to go on.
    pub open spec fn wants_continuation(self) -> bool {
        self.unfinished.len() > 0 || self.intends_to_continue()
    }
}

/// Whether a turn is continued: not once it is cancelled, not before the user's
/// own words are heard, not without a reason, and not beyond the budget.
pub open spec fn stop_decision(
    budget: AutoContinuationBudget,
    context: TurnStopContextView,
) -> ContinuationDecision {
    if context.cancelled || context.user_steer_pending || !context.wants_continuation() {
        ContinuationDecision::AllowStop
    } else if budget.used >= MAX_AUTO_CONTINUATIONS {
        ContinuationDecision::Exhausted
    } else {
        ContinuationDecision::Continue { index: (budget.used + 1) as u8 }
    }
}

/// The budget once a turn has stopped: it starts anew if the user has spoken, and
/// a continuation that is granted is reserved.
pub open spec fn stopped_budget(
    budget: AutoContinuationBudget,
    context: TurnStopContextView,
) -> AutoContinuationBudget {
    if !context.cancelled && context.user_steer_pending {
        AutoContinuationBudget::fresh()
    } else {
        match stop_decision(budget, context) {
            ContinuationDecision::Continue { index } => AutoContinuationBudget {
                reserved: Some(index),
                ..budget
            },
            _ => budget,
        }
    }
}

/// The plan for a turn that stopped: the decision, what was reserved, and the
/// report of it.
pub open spec fn stop_plan(
    budget: AutoContinuationBudget,
    context: TurnStopContextView,
) -> ContinuationPlanView {
    let decision = stop_decision(budget, context);
    ContinuationPlanView {
        decision,
        reservation: match decision {
            ContinuationDecision::Continue { index } => Some(ReservedContinuation { index }),
            _ => None,
        },
        events: match decision {
            ContinuationDecision::Continue { index } => seq![
                telemetry::event(
                    EnhancedEventKind::ContinuationAllowed,
                    EnhancedEventFieldsView {
                        continuation_index: Some(index),
                        ..EnhancedEventFieldsView::none()
                    },
                ),
            ],
            ContinuationDecision::Exhausted => seq![
                telemetry::event(
                    EnhancedEventKind::ContinuationExhausted,
                    EnhancedEventFieldsView {
                        continuation_index: Some(budget.used),
                        ..EnhancedEventFieldsView::none()
                    },
                ),
            ],
            ContinuationDecision::AllowStop => seq![],
        },
    }
}

/// Tells whether the model stopped by itself after announcing that it goes on.
fn states_intent(context: &TurnStopContext) -> (r: bool)
    ensures
        r == context@.intends_to_continue(),
{
    if !context.intent_continuation_enabled || !context.natural_stop {
        return false;
    }
    match &context.assistant_final_text {
        Some(t) => {
            let bare = text::trim_text(t.as_str());
            text::ends_with_text(bare.as_str(), CONTINUE_INTENT)
        },
        None => false,
    }
}

/// Plans whether a turn that stopped is continued, and reserves the continuation
/// if one is granted.
pub fn plan_turn_stop(budget: &mut AutoContinuationBudget, context: &TurnStopContext) -> (r:
    ContinuationPlan)
    ensures
        r@ == stop_plan(*old(budget), context@),
        *final(budget) == stopped_budget(*old(budget), context@),
{
    let mut events: Vec<EnhancedEvent> = Vec::new();
    assert(events.deep_view() =~= seq![]);
    let wanted: bool = context.unfinished.len() > 0 || states_intent(context);
    if context.cancelled || context.user_steer_pending || !wanted {
        if !context.cancelled && context.user_steer_pending {
            budget.reset_for_user_input();
        }
        return ContinuationPlan {
            decision: ContinuationDecision::AllowStop,
            reservation: None,
            events,
        };
    }
    if budget.used >= MAX_AUTO_CONTINUATIONS {
        events.push(
            EnhancedEvent::new(
                EnhancedEventKind::ContinuationExhausted,
                EnhancedEventFields {
                    continuation_index: Some(budget.used),
                    ..EnhancedEventFields::default()
                },
            ),
        );
        assert(events.deep_view() =~= stop_plan(*old(budget), context@).events);
        return ContinuationPlan {
            decision: ContinuationDecision::Exhausted,
            reservation: None,
            events,
        };
    }
    let index: u8 = budget.used + 1;
    budget.reserved = Some(index);
    events.push(
        EnhancedEvent::new(
            EnhancedEventKind::ContinuationAllowed,
            EnhancedEventFields {
                continuation_index: Some(index),
                ..EnhancedEventFields::default()
            },
        ),
    );
    assert(events.deep_view() =~= stop_plan(*old(budget), context@).events);
    ContinuationPlan {
        decision: ContinuationDecision::Continue { index },
        reservation: Some(ReservedContinuation { index }),
        events,
    }
}

/// The budget once a continuation has succeeded.
pub open spec fn committed_budget(
    budget: AutoContinuationBudget,
    reserved: ReservedContinuation,
) -> AutoContinuationBudget {
    if budget.reserved == Some(reserved.index) {
        AutoContinuationBudget { used: reserved.index, reserved: None }
    } else {
        budget
    }
}

/// Counts a continuation as used, for its request has succeeded. Only the one
/// that is reserved can be counted.
pub fn commit_continuation(
    budget: &mut AutoContinuationBudget,
    reserved: ReservedContinuation,
) -> (r: Result<(), ContinuationCommitError>)
    ensures
        r is Ok <==> old(budget).reserved == Some(reserved.index),
        r matches Err(e) ==> e == ContinuationCommitError::NotReserved,
        *final(budget) == committed_budget(*old(budget), reserved),
{
    match budget.reserved {
        Some(index) => {
            if index == reserved.index {
                budget.used = index;
                budget.reserved = None;
                return Ok(());
            }
            Err(ContinuationCommitError::NotReserved)
        },
        None => Err(ContinuationCommitError::NotReserved),
    }
}

/// The budget once a reservation is given up.
pub open spec fn released_budget(budget: AutoContinuationBudget) -> AutoContinuationBudget {
    AutoContinuationBudget { reserved: None, ..budget }
}

/// Gives up a reservation, for its request has failed or the turn is over.
/// Nothing counts as used on that account.
pub fn release_continuation(budget: &mut AutoContinuationBudget)
    ensures
        *final(budget) == released_budget(*old(budget)),
{
    budget.reserved = None;
}

/// What can happen to a budget.
pub enum ContinuationStep {
    /// A turn stops.
    Stop { context: TurnStopContextView },
    /// A request has succeeded.
    Commit { reserved: ReservedContinuation },
    /// A request has failed, or the turn is over.
    Release,
}

/// The budget after one step.
pub open spec fn step_budget(
    budget: AutoContinuationBudget,
    step: ContinuationStep,
) -> AutoContinuationBudget {
    match step {
        ContinuationStep::Stop { context } => stopped_budget(budget, context),
        ContinuationStep::Commit { reserved } => committed_budget(budget, reserved),
        ContinuationStep::Release => released_budget(budget),
    }
}

/// Whether a step makes a continuation count as used.
pub open spec fn step_commits(budget: AutoContinuationBudget, step: ContinuationStep) -> bool {
    step matches ContinuationStep::Commit { reserved } && budget.reserved == Some(reserved.index)
}

/// The budget after all steps.
pub open spec fn run_budget(
    budget: AutoContinuationBudget,
    steps: Seq<ContinuationStep>,
) -> AutoContinuationBudget
    decreases steps.len(),
{
    if steps.len() == 0 {
        budget
    } else {
        step_budget(run_budget(budget, steps.drop_last()), steps.last())
    }
}

/// How many continuations count as used in the course of the steps.
pub open spec fn run_commits(budget: AutoContinuationBudget, steps: Seq<ContinuationStep>) -> nat
    decreases steps.len(),
{
    if steps.len() == 0 {
        0
    } else {
        run_commits(budget, steps.drop_last()) + (if step_commits(
            run_budget(budget, steps.drop_last()),
            steps.last(),
        ) {
            1nat
        } else {
            0nat
        })
    }
}

/// Whether the user has spoken when a step is taken.
pub open spec fn is_user_step(step: ContinuationStep) -> bool {
    step matches ContinuationStep::Stop { context } && context.user_steer_pending
}

/// Whether the user speaks in the course of the steps.
pub open spec fn user_speaks(steps: Seq<ContinuationStep>) -> bool {
    exists|i: int| 0 <= i < steps.len() && is_user_step(#[trigger] steps[i])
}

/// A budget stays within its bounds whatever happens.
pub proof fn law_budget_stays_well_formed(budget: AutoContinuationBudget, step: ContinuationStep)
    requires
        budget.well_formed(),
    ensures
        step_budget(budget, step).well_formed(),
        AutoContinuationBudget::fresh().well_formed(),
{
}

/// As long as the user does not speak, every continuation that succeeds is
/// counted, and no more of them succeed than the bound allows.
pub proof fn law_continuations_are_bounded(
    budget: AutoContinuationBudget,
    steps: Seq<ContinuationStep>,
)
    requires
        budget.well_formed(),
        !user_speaks(steps),
    ensures
        run_budget(budget, steps).well_formed(),
        run_budget(budget, steps).used == budget.used + run_commits(budget, steps),
        run_commits(budget, steps) <= MAX_AUTO_CONTINUATIONS,
    decreases steps.len(),
{
    if steps.len() > 0 {
        assert forall|i: int| 0 <= i < steps.drop_last().len() implies !is_user_step(
            #[trigger] steps.drop_last()[i],
        ) by {
            assert(steps[i] == steps.drop_last()[i]);
        }
        law_continuations_are_bounded(budget, steps.drop_last());
        assert(steps[steps.len() - 1] == steps.last());
    }
}

/// A turn that was cancelled never goes on, and neither does one on which the user
/// has spoken: their words come first.
pub proof fn law_cancelled_turns_end(
    budget: AutoContinuationBudget,
    context: TurnStopContextView,
)
    requires
        context.cancelled || context.user_steer_pending,
    ensures
        stop_decision(budget, context) == ContinuationDecision::AllowStop,
        stop_plan(budget, context).reservation is None,
        stop_plan(budget, context).events.len() == 0,
        context.cancelled ==> stopped_budget(budget, context) == budget,
{
}

/// A failed request consumes nothing: the same continuation is granted again.
pub proof fn law_failed_request_consumes_nothing(
    budget: AutoContinuationBudget,
    context: TurnStopContextView,
)
    ensures
        released_budget(budget).used == budget.used,
        stop_decision(released_budget(stopped_budget(budget, context)), context) == stop_decision(
            budget,
            context,
        ),
{
}

/// A turn that stops is continued exactly where there is something unfinished, or an
/// intent that counts, nobody cancelled it or wants a word, and fewer than two
/// continuations were used. What is reserved is the next one.
pub proof fn law_unfinished_turns_go_on(
    budget: AutoContinuationBudget,
    context: TurnStopContextView,
)
    ensures
        ({
            let plan = stop_plan(budget, context);
            let free = !context.cancelled && !context.user_steer_pending;
            &&& free && context.unfinished.len() > 0 && budget.used < 2 ==> plan.decision == (
            ContinuationDecision::Continue { index: (budget.used + 1) as u8 })
                && plan.reservation == Some(
                ReservedContinuation { index: (budget.used + 1) as u8 },
            ) && stopped_budget(budget, context) == (AutoContinuationBudget {
                used: budget.used,
                reserved: Some((budget.used + 1) as u8),
            })
            &&& free && context.unfinished.len() > 0 && budget.used >= 2 ==> plan.decision
                == ContinuationDecision::Exhausted && plan.reservation is None
                && stopped_budget(budget, context) == budget
            &&& !free ==> plan.decision == ContinuationDecision::AllowStop && plan.reservation
                is None
            &&& context.unfinished.len() == 0 && !(context.intent_continuation_enabled
                && context.natural_stop && context.assistant_final_text is Some)
                ==> plan.decision == ContinuationDecision::AllowStop && plan.reservation is None
            &&& plan.reservation is Some <==> plan.decision is Continue
        }),
{
}

/// A stated intent continues a turn only where the text ends with it: a text that is
/// nothing but the intent does, whatever white space follows; one without it at its
/// end does not.
pub proof fn law_intent_has_to_stand_at_the_end(
    budget: AutoContinuationBudget,
    context: TurnStopContextView,
)
    requires
        context.unfinished.len() == 0,
        !context.cancelled,
        !context.user_steer_pending,
        context.intent_continuation_enabled,
        context.natural_stop,
        budget.used < 2,
    ensures
        context.assistant_final_text matches Some(t) ==> (stop_decision(budget, context)
            is Continue <==> {
            let bare = text::trimmed(t);
            let intent = "I will continue immediately."@;
            bare.len() >= intent.len() && bare.skip(bare.len() - intent.len()) == intent
        }),
        context.assistant_final_text is None ==> stop_decision(budget, context)
            == ContinuationDecision::AllowStop,
{
    if let Some(t) = context.assistant_final_text {
        let bare = text::trimmed(t);
        let intent = "I will continue immediately."@;
        text::law_held_text_stands_there(bare, intent);
        if bare.len() >= intent.len() && bare.skip(bare.len() - intent.len()) == intent {
            text::law_parts_are_held(bare.take(bare.len() - intent.len()), seq![], intent);
            assert(bare =~= bare.take(bare.len() - intent.len()) + intent);
        }
    }
}

/// A continuation that was reserved and is committed counts, one that was not
/// reserved does not; giving up what was reserved leaves the count alone; the user's
/// words start everything anew.
pub proof fn law_budget_counts_what_was_reserved(
    budget: AutoContinuationBudget,
    reserved: ReservedContinuation,
    context: TurnStopContextView,
)
    ensures
        budget.reserved == Some(reserved.index) ==> committed_budget(budget, reserved) == (
        AutoContinuationBudget { used: reserved.index, reserved: None }),
        budget.reserved != Some(reserved.index) ==> committed_budget(budget, reserved) == budget,
        released_budget(budget).used == budget.used,
        released_budget(budget).reserved is None,
        context.user_steer_pending && !context.cancelled ==> stopped_budget(budget, context) == (
        AutoContinuationBudget { used: 0, reserved: None }),
        AutoContinuationBudget::fresh() == (AutoContinuationBudget { used: 0, reserved: None }),
{
}

} // verus!
