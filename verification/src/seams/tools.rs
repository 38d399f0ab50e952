//! Tool calls on their way to the tool, and results on their way back.

use crate::digest;
use crate::hooks::{EnhancedTurnHooksView, HookDecision};
use crate::replay;
use crate::replay::{ReplayVerdict, SeenCalls};
use crate::response_items;
use crate::response_items::{
    ContentItem, ContentItemView, ResponseItem, ResponseItemView,
};
use crate::runtime::{EnhancedSessionRuntime, EnhancedSessionRuntimeView};
use crate::seams::session;
use crate::seams::session::SessionStep;
use crate::telemetry;
use crate::telemetry::{
    EnhancedEvent, EnhancedEventFields, EnhancedEventFieldsView, EnhancedEventKind,
    EnhancedEventView,
};
use crate::text;
use crate::tool_observation;
use crate::tool_observation::{
    ObservationInput, ObservationInputView, ObservationResultStatus, REPETITION_NOTICE,
};
use crate::tool_reliability;
use crate::tool_reliability::{
    AdmitDecision, AdmitDecisionView, HandledToolCall, HandledToolCallView, LateResultDecision,
    ProviderToolCallIdentity, ProviderToolCallIdentityView, ToolCallLedger, ToolCallLedgerView,
    ToolCallResolution, ToolKind,
};
use vstd::prelude::*;

verus! {

/// An error whose message means that the output is dropped. It never reaches the
/// model.
pub const DROP_TOOL_OUTPUT_MARKER: &'static str = "vellum.enhanced.drop-tool-output";

/// What a call hands to its tool.
#[derive(Debug, PartialEq, Eq)]
pub enum ToolPayload {
    Function { arguments: String },
    Custom { input: String },
    ToolSearch { query: String },
}

/// The model of [`ToolPayload`].
#[verifier::ext_equal]
pub enum ToolPayloadView {
    Function { arguments: Seq<char> },
    Custom { input: Seq<char> },
    ToolSearch { query: Seq<char> },
}

impl View for ToolPayload {
    type V = ToolPayloadView;

    open spec fn view(&self) -> ToolPayloadView {
        match self {
            ToolPayload::Function { arguments } => ToolPayloadView::Function {
                arguments: arguments@,
            },
            ToolPayload::Custom { input } => ToolPayloadView::Custom { input: input@ },
            ToolPayload::ToolSearch { query } => ToolPayloadView::ToolSearch { query: query@ },
        }
    }
}

impl DeepView for ToolPayload {
    type V = ToolPayloadView;

    open spec fn deep_view(&self) -> ToolPayloadView {
        self@
    }
}

impl Clone for ToolPayload {
    fn clone(&self) -> (r: Self)
        ensures
            r@ == self@,
    {
        match self {
            ToolPayload::Function { arguments } => ToolPayload::Function {
                arguments: arguments.clone(),
            },
            ToolPayload::Custom { input } => ToolPayload::Custom { input: input.clone() },
            ToolPayload::ToolSearch { query } => ToolPayload::ToolSearch { query: query.clone() },
        }
    }
}

/// A call on its way to a tool.
#[derive(Debug, PartialEq, Eq)]
pub struct ToolCall {
    pub tool_name: String,
    pub namespace: Option<String>,
    pub call_id: String,
    pub payload: ToolPayload,
}

/// The model of [`ToolCall`].
#[verifier::ext_equal]
pub struct ToolCallView {
    pub tool_name: Seq<char>,
    pub namespace: Option<Seq<char>>,
    pub call_id: Seq<char>,
    pub payload: ToolPayloadView,
}

impl View for ToolCall {
    type V = ToolCallView;

    open spec fn view(&self) -> ToolCallView {
        ToolCallView {
            tool_name: self.tool_name@,
            namespace: self.namespace.deep_view(),
            call_id: self.call_id@,
            payload: self.payload.deep_view(),
        }
    }
}

impl DeepView for ToolCall {
    type V = ToolCallView;

    open spec fn deep_view(&self) -> ToolCallView {
        self@
    }
}

impl Clone for ToolCall {
    fn clone(&self) -> (r: Self)
        ensures
            r@ == self@,
    {
        ToolCall {
            tool_name: self.tool_name.clone(),
            namespace: self.namespace.clone(),
            call_id: self.call_id.clone(),
            payload: self.payload.clone(),
        }
    }
}

/// Why a call has no result.
#[derive(Debug, PartialEq, Eq)]
pub enum FunctionCallError {
    /// The model is told in place of a result.
    RespondToModel(String),
    /// The turn cannot go on.
    Fatal(String),
}

/// The model of [`FunctionCallError`].
#[verifier::ext_equal]
pub enum FunctionCallErrorView {
    RespondToModel(Seq<char>),
    Fatal(Seq<char>),
}

impl View for FunctionCallError {
    type V = FunctionCallErrorView;

    open spec fn view(&self) -> FunctionCallErrorView {
        match self {
            FunctionCallError::RespondToModel(value) => FunctionCallErrorView::RespondToModel(
                value@,
            ),
            FunctionCallError::Fatal(value) => FunctionCallErrorView::Fatal(value@),
        }
    }
}

impl DeepView for FunctionCallError {
    type V = FunctionCallErrorView;

    open spec fn deep_view(&self) -> FunctionCallErrorView {
        self@
    }
}

impl Clone for FunctionCallError {
    fn clone(&self) -> (r: Self)
        ensures
            r@ == self@,
    {
        match self {
            FunctionCallError::RespondToModel(value) => {
                FunctionCallError::RespondToModel(value.clone())
            },
            FunctionCallError::Fatal(value) => FunctionCallError::Fatal(value.clone()),
        }
    }
}

impl ToolCallView {
    /// What the call is.
    pub open spec fn identity(self) -> ProviderToolCallIdentityView {
        let namespace = response_items::or_empty(self.namespace);
        match self.payload {
            ToolPayloadView::Function { arguments } => tool_reliability::raw_identity(
                self.call_id,
                self.tool_name,
                ToolKind::Function,
                namespace,
                tool_reliability::canonical_arguments(arguments),
            ),
            ToolPayloadView::Custom { input } => tool_reliability::raw_identity(
                self.call_id,
                self.tool_name,
                ToolKind::Custom,
                namespace,
                input,
            ),
            ToolPayloadView::ToolSearch { query } => tool_reliability::raw_identity(
                self.call_id,
                self.tool_name,
                ToolKind::ToolSearch,
                namespace,
                tool_reliability::search_form(tool_reliability::json_string(query)),
            ),
        }
    }
}

/// The namespace of a call's tool; it is empty where there is none.
fn call_namespace(call: &ToolCall) -> (r: String)
    ensures
        r@ == response_items::or_empty(call@.namespace),
{
    match &call.namespace {
        Some(namespace) => namespace.clone(),
        None => {
            let r = String::new();
            assert(r@ =~= seq![]);
            r
        },
    }
}

/// What a call is. The arguments of a function count by their value, the input of
/// a custom tool word for word.
pub fn identity_from_call(call: &ToolCall) -> (r: ProviderToolCallIdentity)
    ensures
        r@ == call@.identity(),
{
    let namespace = call_namespace(call);
    match &call.payload {
        ToolPayload::Function { arguments } => ToolCallLedger::identity_json(
            call.call_id.as_str(),
            call.tool_name.as_str(),
            ToolKind::Function,
            namespace.as_str(),
            arguments.as_str(),
        ),
        ToolPayload::Custom { input } => ToolCallLedger::identity_raw(
            call.call_id.as_str(),
            call.tool_name.as_str(),
            ToolKind::Custom,
            namespace.as_str(),
            input.as_str(),
        ),
        ToolPayload::ToolSearch { query } => {
            let arguments = tool_reliability::search_arguments(query.as_str());
            ToolCallLedger::identity_raw(
                call.call_id.as_str(),
                call.tool_name.as_str(),
                ToolKind::ToolSearch,
                namespace.as_str(),
                arguments.as_str(),
            )
        },
    }
}

/// The error that means that an output is dropped.
pub open spec fn drop_error() -> FunctionCallErrorView {
    FunctionCallErrorView::RespondToModel(DROP_TOOL_OUTPUT_MARKER@)
}

/// The error that means that an output is dropped.
pub fn drop_tool_output_error() -> (r: FunctionCallError)
    ensures
        r@ == drop_error(),
{
    FunctionCallError::RespondToModel(DROP_TOOL_OUTPUT_MARKER.to_owned())
}

/// Tells whether an error means that an output is dropped.
pub fn is_drop_tool_output(error: &FunctionCallError) -> (r: bool)
    ensures
        r == (error@ == drop_error()),
{
    match error {
        FunctionCallError::RespondToModel(message) => text::same_text(
            message.as_str(),
            DROP_TOOL_OUTPUT_MARKER,
        ),
        FunctionCallError::Fatal(_) => false,
    }
}

/// Tells whether the model has seen the result of a call.
pub fn original_result_already_delivered(runtime: &EnhancedSessionRuntime, call_id: &str) -> (r:
    bool)
    ensures
        r == (runtime@.hooks.ledger.lookup(call_id@) matches Some(handled)
            && handled.original_result_delivered),
{
    match runtime.hooks.ledger.get(call_id) {
        Some(handled) => handled.original_result_delivered,
        None => false,
    }
}

impl EnhancedSessionRuntimeView {
    /// The runtime with another ledger.
    pub open spec fn with_ledger(self, ledger: ToolCallLedgerView) -> Self {
        EnhancedSessionRuntimeView {
            hooks: EnhancedTurnHooksView { ledger, ..self.hooks },
            ..self
        }
    }

    /// The runtime with further events.
    pub open spec fn with_events(self, events: Seq<EnhancedEventView>) -> Self {
        EnhancedSessionRuntimeView { telemetry: self.telemetry + events, ..self }
    }

    /// The runtime once a call has come in. A duplicate is noted as answered.
    pub open spec fn after_call(self, call: ToolCallView) -> Self {
        if self.hooks.features.qwen_tool_reliability {
            let ledger = self.hooks.ledger.with_call(call.identity());
            let outcome = self.hooks.ledger.outcome(call.identity());
            self.with_events(outcome.events).with_ledger(
                if outcome.decision is SuppressDuplicate {
                    ledger.with_resolution(call.call_id, ToolCallResolution::SyntheticDuplicate)
                } else {
                    ledger
                },
            )
        } else {
            self
        }
    }

    /// Whether a call that came in is executed. A duplicate is answered with a
    /// message, or with nothing at all if the result was seen; another call under
    /// a known identifier ends the turn.
    pub open spec fn call_result(self, call: ToolCallView) -> Result<(), FunctionCallErrorView> {
        if self.hooks.features.qwen_tool_reliability {
            match self.hooks.ledger.decision(call.identity()) {
                AdmitDecisionView::Execute => Ok(()),
                AdmitDecisionView::SuppressDuplicate { message } => Err(
                    if self.hooks.ledger.lookup(call.call_id)->0.original_result_delivered {
                        drop_error()
                    } else {
                        FunctionCallErrorView::RespondToModel(message)
                    },
                ),
                AdmitDecisionView::FailClosed { message } => Err(
                    FunctionCallErrorView::Fatal(message),
                ),
            }
        } else {
            Ok(())
        }
    }

    /// Whether the result of a call is dropped: because a duplicate of the call
    /// was answered, or because the model has seen the result. With the port off
    /// none is.
    pub open spec fn drops_result(self, call_id: Seq<char>) -> bool {
        self.hooks.features.qwen_tool_reliability && self.hooks.ledger.result_decision(call_id)
            == LateResultDecision::Suppress
    }

    /// The runtime once the result of a call has come and nothing but its ledger
    /// and its telemetry have taken note of it.
    pub open spec fn after_result(self, call_id: Seq<char>, succeeded: bool) -> Self {
        let ledger = self.hooks.ledger.with_result(call_id).with_resolution(
            call_id,
            if succeeded {
                ToolCallResolution::Executed
            } else {
                ToolCallResolution::Failed
            },
        );
        self.with_ledger(ledger).with_events(seq![completed_event(call_id, succeeded)])
    }

    /// What is told about repetitions of a result.
    pub open spec fn observation(
        self,
        call_id: Seq<char>,
        input: ObservationInputView,
    ) -> tool_observation::ObservationOutcomeView {
        self.hooks.observations.outcome(call_id, input, self.hooks.features.repetition_notice)
    }

    /// The runtime once a result was looked at for repetitions. `handled` is what
    /// the ledger knew of the call when the result came.
    pub open spec fn after_observation(
        self,
        call_id: Seq<char>,
        handled: Option<HandledToolCallView>,
        succeeded: bool,
        result_text: Option<Seq<char>>,
    ) -> Self {
        match handled {
            Some(call) if self.hooks.features.qwen_tool_reliability => {
                let input = observed(call, succeeded, result_text);
                let outcome = self.observation(call_id, input);
                EnhancedSessionRuntimeView {
                    hooks: EnhancedTurnHooksView {
                        observations: self.hooks.observations.with_result(input),
                        ..self.hooks
                    },
                    telemetry: self.telemetry + outcome.events,
                    pending_repetition_notices: if outcome.decision.emit_model_notice {
                        self.pending_repetition_notices.insert(call_id)
                    } else {
                        self.pending_repetition_notices
                    },
                    pending_standalone_repetition_notice: outcome.decision.standalone_notice
                        || self.pending_standalone_repetition_notice,
                    ..self
                }
            },
            _ => self,
        }
    }

    /// The notice that goes with a result, if one does.
    pub open spec fn notice(
        self,
        call_id: Seq<char>,
        handled: Option<HandledToolCallView>,
        succeeded: bool,
        result_text: Option<Seq<char>>,
    ) -> Option<Seq<char>> {
        match handled {
            Some(call) if self.hooks.features.qwen_tool_reliability => if self.observation(
                call_id,
                observed(call, succeeded, result_text),
            ).decision.emit_model_notice {
                Some(REPETITION_NOTICE@)
            } else {
                None
            },
            _ => None,
        }
    }

    /// The runtime once the result of a call has come.
    pub open spec fn after_completion(
        self,
        call_id: Seq<char>,
        succeeded: bool,
        result_text: Option<Seq<char>>,
    ) -> Self {
        if self.drops_result(call_id) || !self.hooks.features.qwen_tool_reliability {
            self
        } else {
            self.after_result(call_id, succeeded).after_observation(
                call_id,
                self.hooks.ledger.lookup(call_id),
                succeeded,
                result_text,
            )
        }
    }

    /// What becomes of the result of a call: it is dropped, or it is passed on,
    /// perhaps with a notice.
    pub open spec fn completion(
        self,
        call_id: Seq<char>,
        succeeded: bool,
        result_text: Option<Seq<char>>,
    ) -> Result<Option<Seq<char>>, FunctionCallErrorView> {
        if self.drops_result(call_id) {
            Err(drop_error())
        } else if !self.hooks.features.qwen_tool_reliability {
            Ok(None)
        } else {
            Ok(
                self.after_result(call_id, succeeded).notice(
                    call_id,
                    self.hooks.ledger.lookup(call_id),
                    succeeded,
                    result_text,
                ),
            )
        }
    }
}

/// The report that a call has its result.
pub open spec fn completed_event(call_id: Seq<char>, succeeded: bool) -> EnhancedEventView {
    telemetry::event(
        EnhancedEventKind::ToolCallCompleted,
        EnhancedEventFieldsView {
            outcome: Some(
                if succeeded {
                    "executed"@
                } else {
                    "failed"@
                },
            ),
            succeeded: Some(succeeded),
            ..tool_reliability::call_fields(call_id)
        },
    )
}

/// What is observed of a call and its result. A result without a text counts by
/// its success.
pub open spec fn observed(
    call: HandledToolCallView,
    succeeded: bool,
    result_text: Option<Seq<char>>,
) -> ObservationInputView {
    let original = match result_text {
        Some(t) => t,
        None => if succeeded {
            "success"@
        } else {
            "failed"@
        },
    };
    ObservationInputView {
        tool_name: call.identity.tool_name,
        tool_kind: call.identity.tool_kind,
        namespace: call.identity.namespace,
        input_fingerprint: call.identity.argument_fingerprint,
        original_result_fingerprint: digest::text_digest(
            tool_observation::without_notice(original, Some(REPETITION_NOTICE@)),
        ),
        dispatch_index: call.dispatch_index,
        result_status: if succeeded {
            ObservationResultStatus::Success
        } else {
            ObservationResultStatus::Failed
        },
        native_wait_poll: tool_observation::is_wait_poll(
            call.identity.tool_name,
            call.identity.tool_kind,
            call.identity.namespace,
        ),
    }
}

/// Decides whether a call is executed.
pub fn admit_tool_call(runtime: &mut EnhancedSessionRuntime, call: &ToolCall) -> (r: Result<
    (),
    FunctionCallError,
>)
    ensures
        final(runtime)@ == session::step_session(old(runtime)@, SessionStep::Call { call: call@ }),
        final(runtime)@ == old(runtime)@.after_call(call@),
        match old(runtime)@.call_result(call@) {
            Ok(_) => r is Ok,
            Err(error) => r matches Err(e) && e@ == error,
        },
{
    proof {
        reveal(session::step_session);
    }
    let ghost start = runtime@;
    let identity = identity_from_call(call);
    let decision = runtime.hooks.admit_tool_call(identity, &mut runtime.telemetry);
    match decision {
        HookDecision::DeferToUpstream => Ok(()),
        HookDecision::Handled(AdmitDecision::Execute) => {
            Ok(())
        },
        HookDecision::Handled(AdmitDecision::SuppressDuplicate { message }) => {
            proof {
                tool_reliability::law_resolution_is_found(
                    start.hooks.ledger,
                    call@.call_id,
                    ToolCallResolution::SyntheticDuplicate,
                );
            }
            runtime.hooks.mark_tool_resolution(
                call.call_id.as_str(),
                ToolCallResolution::SyntheticDuplicate,
            );
            if original_result_already_delivered(runtime, call.call_id.as_str()) {
                Err(drop_tool_output_error())
            } else {
                Err(FunctionCallError::RespondToModel(message))
            }
        },
        HookDecision::Handled(AdmitDecision::FailClosed { message }) => Err(
            FunctionCallError::Fatal(message),
        ),
    }
}

/// Looks at a result for repetitions, and decides whether the notice of one goes
/// with it.
fn observe_completed_result(
    runtime: &mut EnhancedSessionRuntime,
    call_id: &str,
    handled: &Option<HandledToolCall>,
    succeeded: bool,
    result_text: Option<&str>,
) -> (r: Option<String>)
    ensures
        final(runtime)@ == old(runtime)@.after_observation(
            call_id@,
            handled.deep_view(),
            succeeded,
            result_text.deep_view(),
        ),
        r.deep_view() == old(runtime)@.notice(
            call_id@,
            handled.deep_view(),
            succeeded,
            result_text.deep_view(),
        ),
{
    let call = match handled {
        Some(call) => call,
        None => {
            return None;
        },
    };
    let original = match result_text {
        Some(t) => t,
        None => if succeeded {
            "success"
        } else {
            "failed"
        },
    };
    let input = ObservationInput {
        tool_name: call.identity.tool_name.clone(),
        tool_kind: call.identity.tool_kind,
        namespace: call.identity.namespace.clone(),
        input_fingerprint: call.identity.argument_fingerprint.clone(),
        original_result_fingerprint: tool_observation::fingerprint_original_result(
            original,
            Some(REPETITION_NOTICE),
        ),
        dispatch_index: call.dispatch_index,
        result_status: if succeeded {
            ObservationResultStatus::Success
        } else {
            ObservationResultStatus::Failed
        },
        native_wait_poll: tool_observation::is_native_wait_poll(
            call.identity.tool_name.as_str(),
            call.identity.tool_kind,
            call.identity.namespace.as_str(),
        ),
    };
    assert(input@ == observed(call@, succeeded, result_text.deep_view()));
    let decision = runtime.hooks.observe_tool_result(call_id, input, &mut runtime.telemetry);
    if decision.emit_model_notice {
        runtime.pending_repetition_notices.insert(call_id);
        Some(REPETITION_NOTICE.to_owned())
    } else if decision.standalone_notice {
        runtime.pending_standalone_repetition_notice = true;
        None
    } else {
        None
    }
}

/// Decides whether the result of a call is passed on, and whether the notice of a
/// repetition goes with it.
pub fn complete_tool_call_with_result(
    runtime: &mut EnhancedSessionRuntime,
    call_id: &str,
    succeeded: bool,
    result_text: Option<&str>,
) -> (r: Result<Option<String>, FunctionCallError>)
    ensures
        final(runtime)@ == session::step_session(
            old(runtime)@,
            SessionStep::Completion {
                call_id: call_id@,
                succeeded,
                result_text: result_text.deep_view(),
            },
        ),
        final(runtime)@ == old(runtime)@.after_completion(
            call_id@,
            succeeded,
            result_text.deep_view(),
        ),
        match old(runtime)@.completion(call_id@, succeeded, result_text.deep_view()) {
            Ok(notice) => r matches Ok(given) && given.deep_view() == notice,
            Err(error) => r matches Err(e) && e@ == error,
        },
{
    proof {
        reveal(session::step_session);
    }
    let ghost start = runtime@;
    let handled = match runtime.hooks.ledger.get(call_id) {
        Some(known) => Some(known.clone()),
        None => None,
    };
    assert(handled.deep_view() == start.hooks.ledger.lookup(call_id@));
    let synthetic_duplicate: bool = match &handled {
        Some(known) => runtime.hooks.features.qwen_tool_reliability
            && known.synthetic_duplicate_emitted,
        None => false,
    };
    let late = runtime.hooks.ingest_late_tool_result(call_id);
    let original = runtime.hooks.complete_original_tool_result(call_id);
    let late_suppressed: bool = match late {
        HookDecision::Handled(LateResultDecision::Suppress) => true,
        _ => false,
    };
    let original_suppressed: bool = match original {
        HookDecision::Handled(LateResultDecision::Suppress) => true,
        _ => false,
    };
    if synthetic_duplicate || late_suppressed || original_suppressed {
        return Err(drop_tool_output_error());
    }
    match original {
        HookDecision::Handled(LateResultDecision::Accept) => {
            runtime.hooks.mark_tool_resolution(
                call_id,
                if succeeded {
                    ToolCallResolution::Executed
                } else {
                    ToolCallResolution::Failed
                },
            );
            let outcome = if succeeded {
                "executed"
            } else {
                "failed"
            };
            let event = EnhancedEvent::new(
                EnhancedEventKind::ToolCallCompleted,
                EnhancedEventFields {
                    outcome: Some(outcome.to_owned()),
                    succeeded: Some(succeeded),
                    ..tool_reliability::fields_of_call(call_id)
                },
            );
            assert(event@ == completed_event(call_id@, succeeded));
            runtime.telemetry.emit(event);
            assert(runtime@.telemetry =~= start.after_result(call_id@, succeeded).telemetry);
            assert(runtime@ == start.after_result(call_id@, succeeded));
            Ok(observe_completed_result(runtime, call_id, &handled, succeeded, result_text))
        },
        _ => Ok(None),
    }
}

/// Decides whether the result of a call is passed on.
pub fn complete_tool_call(
    runtime: &mut EnhancedSessionRuntime,
    call_id: &str,
    succeeded: bool,
) -> (r: Result<(), FunctionCallError>)
    ensures
        final(runtime)@ == session::step_session(
            old(runtime)@,
            SessionStep::Completion {
                call_id: call_id@,
                succeeded,
                result_text: None,
            },
        ),
        final(runtime)@ == old(runtime)@.after_completion(call_id@, succeeded, None),
        match old(runtime)@.completion(call_id@, succeeded, None) {
            Ok(_) => r is Ok,
            Err(error) => r matches Err(e) && e@ == error,
        },
{
    proof {
        reveal(session::step_session);
    }
    match complete_tool_call_with_result(runtime, call_id, succeeded, None) {
        Ok(_) => Ok(()),
        Err(error) => Err(error),
    }
}

/// A prompt without the calls that only replay another, where the port is on.
pub open spec fn prompt_without_replays(
    runtime: EnhancedSessionRuntimeView,
    items: Seq<ResponseItemView>,
) -> Seq<ResponseItemView> {
    if runtime.hooks.features.qwen_tool_reliability {
        replay::without_replays(items, items.len() as int)
    } else {
        items
    }
}

/// Takes out of a prompt the calls that only replay another, so that no duplicate
/// spoils the pairs of calls and outputs in the next request.
pub fn remove_replayed_tool_calls_from_prompt(
    runtime: &EnhancedSessionRuntime,
    items: &mut Vec<ResponseItem>,
)
    ensures
        final(items).deep_view() == prompt_without_replays(runtime@, old(items).deep_view()),
{
    if runtime.hooks.features.qwen_tool_reliability {
        replay::remove_replays(items);
    }
}

/// Whether a call in a response is left out because the same call came before it.
pub open spec fn is_suppressed(
    runtime: EnhancedSessionRuntimeView,
    item: ResponseItemView,
    seen: replay::SeenCallsView,
) -> bool {
    runtime.hooks.features.qwen_tool_reliability && (replay::call_of(item) matches Some(call)
        && replay::verdict(seen, call) == ReplayVerdict::Replay)
}

/// Decides whether a call in a response is left out because the same call came
/// before it, so that only the first is ever scheduled.
pub fn suppress_replayed_tool_call_in_response(
    runtime: &mut EnhancedSessionRuntime,
    item: &ResponseItem,
    seen: &mut SeenCalls,
) -> (r: bool)
    ensures
        final(runtime)@ == session::step_session(
            old(runtime)@,
            SessionStep::ResponseCall { item: item@, seen: old(seen)@ },
        ),
        r == is_suppressed(old(runtime)@, item@, old(seen)@),
        final(runtime)@ == (if r {
            let fields = tool_reliability::call_fields(replay::call_of(item@)->0.call_id);
            old(runtime)@.with_events(
                seq![
                    telemetry::event(EnhancedEventKind::ToolDuplicateDetected, fields),
                    telemetry::event(EnhancedEventKind::ToolDuplicateSuppressed, fields),
                ],
            )
        } else {
            old(runtime)@
        }),
        final(seen)@ == (match replay::call_of(item@) {
            Some(call) if old(runtime)@.hooks.features.qwen_tool_reliability => {
                old(seen)@.with_call(call)
            },
            _ => old(seen)@,
        }),
{
    proof {
        reveal(session::step_session);
    }
    let ghost start = runtime@;
    if !runtime.hooks.features.qwen_tool_reliability {
        return false;
    }
    let call = match replay::call_in(item) {
        Some(call) => call,
        None => {
            return false;
        },
    };
    let call_id = call.call_id.clone();
    if seen.judge(call) != ReplayVerdict::Replay {
        return false;
    }
    let fields = tool_reliability::fields_of_call(call_id.as_str());
    let ghost reported = fields@;
    runtime.telemetry.emit(
        EnhancedEvent::new(EnhancedEventKind::ToolDuplicateDetected, fields.clone()),
    );
    runtime.telemetry.emit(
        EnhancedEvent::new(EnhancedEventKind::ToolDuplicateSuppressed, fields),
    );
    assert(runtime@.telemetry =~= start.telemetry + seq![
        telemetry::event(EnhancedEventKind::ToolDuplicateDetected, reported),
        telemetry::event(EnhancedEventKind::ToolDuplicateSuppressed, reported),
    ]);
    true
}

/// The item with the notice of a repetition behind its output, if its call is to
/// bear the notice and does not bear it yet.
pub open spec fn with_notice(item: ResponseItemView, calls: Set<Seq<char>>) -> ResponseItemView {
    match (item.answered_call(), item.answer_text()) {
        (Some(call_id), Some(t)) => if calls.contains(call_id) && !text::holds_text(
            t,
            REPETITION_NOTICE@,
        ) {
            item.with_text(t + "\n"@ + REPETITION_NOTICE@)
        } else {
            item
        },
        _ => item,
    }
}

/// Whether an item shows the notice of a repetition.
pub open spec fn shows_notice(item: ResponseItemView) -> bool {
    match item {
        ResponseItemView::Message { content, .. } => text::holds_text(
            response_items::message_text(content),
            REPETITION_NOTICE@,
        ),
        _ => item.answer_text() matches Some(t) && text::holds_text(t, REPETITION_NOTICE@),
    }
}

/// The message that is the notice of a repetition by itself.
pub open spec fn notice_message() -> ResponseItemView {
    ResponseItemView::Message {
        role: "user"@,
        content: seq![ContentItemView::InputText { text: REPETITION_NOTICE@ }],
    }
}

/// A prompt with the notices of repetitions that are due. A notice that stands by
/// itself is added only where none is to be seen yet.
pub open spec fn with_notices(
    runtime: EnhancedSessionRuntimeView,
    items: Seq<ResponseItemView>,
) -> Seq<ResponseItemView> {
    let marked = items.map_values(
        |item: ResponseItemView| with_notice(item, runtime.pending_repetition_notices),
    );
    if runtime.pending_standalone_repetition_notice && !(exists|i: int|
        0 <= i < marked.len() && shows_notice(#[trigger] marked[i])) {
        marked.push(notice_message())
    } else {
        marked
    }
}

/// Tells whether an item shows the notice of a repetition.
fn notice_shown(item: &ResponseItem) -> (r: bool)
    ensures
        r == shows_notice(item@),
{
    match item {
        ResponseItem::Message { content, .. } => {
            let t = response_items::content_text(content);
            text::contains_text(t.as_str(), REPETITION_NOTICE)
        },
        _ => match response_items::output_identity_and_text(item) {
            Some((_, t)) => text::contains_text(t.as_str(), REPETITION_NOTICE),
            None => false,
        },
    }
}

/// Puts the notices of repetitions that are due into a prompt.
pub fn apply_repetition_notices(
    runtime: &mut EnhancedSessionRuntime,
    items: &mut Vec<ResponseItem>,
)
    ensures
        final(runtime)@ == session::step_session(old(runtime)@, SessionStep::Notices),
        final(items).deep_view() == with_notices(old(runtime)@, old(items).deep_view()),
        final(runtime)@ == (EnhancedSessionRuntimeView {
            pending_standalone_repetition_notice: false,
            ..old(runtime)@
        }),
{
    proof {
        reveal(session::step_session);
    }
    let ghost all = items.deep_view();
    let ghost due = runtime@.pending_repetition_notices;
    let ghost marked = all.map_values(|item: ResponseItemView| with_notice(item, due));
    let mut already: bool = false;
    let mut i: usize = 0;
    while i < items.len()
        invariant
            i <= items.len(),
            items.len() == all.len(),
            runtime@ == old(runtime)@,
            due == runtime@.pending_repetition_notices,
            marked == all.map_values(|item: ResponseItemView| with_notice(item, due)),
            items.deep_view() =~= marked.take(i as int) + all.skip(i as int),
            already == (exists|k: int| 0 <= k < i && shows_notice(#[trigger] marked[k])),
        decreases items.len() - i,
    {
        let ghost before = items.deep_view();
        assert(before[i as int] == all[i as int]);
        assert(before[i as int] == items@[i as int]@);
        if let Some((call_id, t)) = response_items::output_identity_and_text(&items[i]) {
            if runtime.pending_repetition_notices.contains(call_id.as_str())
                && !text::contains_text(t.as_str(), REPETITION_NOTICE) {
                let mut longer = t;
                longer.append("\n");
                longer.append(REPETITION_NOTICE);
                assert(longer@ =~= t@ + "\n"@ + REPETITION_NOTICE@);
                let mut item = items[i].clone();
                response_items::replace_output_text(&mut item, longer);
                items.set(i, item);
                assert(items.deep_view() =~= before.update(i as int, item@));
            }
        }
        assert(items.deep_view()[i as int] == marked[i as int]);
        assert(items.deep_view()[i as int] == items@[i as int]@);
        if notice_shown(&items[i]) {
            already = true;
        }
        i = i + 1;
        assert(items.deep_view() =~= marked.take(i as int) + all.skip(i as int));
    }
    assert(items.deep_view() =~= marked);
    if runtime.pending_standalone_repetition_notice {
        runtime.pending_standalone_repetition_notice = false;
        if !already {
            let content = vec![ContentItem::InputText { text: REPETITION_NOTICE.to_owned() }];
            assert(content.deep_view() =~= seq![
                ContentItemView::InputText { text: REPETITION_NOTICE@ },
            ]);
            let message = ResponseItem::Message { role: "user".to_owned(), content };
            items.push(message);
            assert(items.deep_view() =~= marked.push(message@));
        }
    }
}

/// What became of a call, by what its output says.
pub open spec fn output_resolution(success: Option<bool>) -> ToolCallResolution {
    if success == Some(false) {
        ToolCallResolution::Failed
    } else {
        ToolCallResolution::Executed
    }
}

/// The ledger once an item of the history is taken into account.
pub open spec fn history_step(
    ledger: ToolCallLedgerView,
    item: ResponseItemView,
) -> ToolCallLedgerView {
    match item {
        ResponseItemView::FunctionCall { call_id, name, arguments } => ledger.with_call(
            tool_reliability::raw_identity(
                call_id,
                name,
                ToolKind::Function,
                ""@,
                tool_reliability::canonical_arguments(arguments),
            ),
        ),
        ResponseItemView::CustomToolCall { call_id, name, input } => ledger.with_call(
            tool_reliability::raw_identity(call_id, name, ToolKind::Custom, ""@, input),
        ),
        ResponseItemView::FunctionCallOutput { call_id: Some(call_id), output, .. } => {
            ledger.with_result(call_id).with_resolution(call_id, output_resolution(output.success))
        },
        ResponseItemView::CustomToolCallOutput { call_id, output, .. } => {
            ledger.with_result(call_id).with_resolution(call_id, output_resolution(output.success))
        },
        _ => ledger,
    }
}

/// The ledger of a history.
pub open spec fn history_ledger(items: Seq<ResponseItemView>) -> ToolCallLedgerView
    decreases items.len(),
{
    if items.len() == 0 {
        ToolCallLedgerView::empty()
    } else {
        history_step(history_ledger(items.drop_last()), items.last())
    }
}

fn take_output(ledger: &mut ToolCallLedger, call_id: &str, success: Option<bool>)
    ensures
        final(ledger)@ == old(ledger)@.with_result(call_id@).with_resolution(
            call_id@,
            output_resolution(success),
        ),
{
    ledger.complete_original(call_id);
    let resolution = match success {
        Some(false) => ToolCallResolution::Failed,
        _ => ToolCallResolution::Executed,
    };
    ledger.mark_resolution(call_id, resolution);
}

/// Makes the ledger of a history: its calls were admitted, and its outputs were
/// seen.
pub fn ledger_from_history(items: &Vec<ResponseItem>) -> (r: ToolCallLedger)
    ensures
        r@ == history_ledger(items.deep_view()),
{
    let ghost all = items.deep_view();
    let mut ledger = ToolCallLedger::new();
    let mut i: usize = 0;
    assert(all.take(0) =~= seq![]);
    while i < items.len()
        invariant
            i <= items.len(),
            all == items.deep_view(),
            ledger@ == history_ledger(all.take(i as int)),
        decreases items.len() - i,
    {
        proof {
            assert(all.take(i + 1).drop_last() =~= all.take(i as int));
            assert(all.take(i + 1).last() == items@[i as int]@);
        }
        match &items[i] {
            ResponseItem::FunctionCall { call_id, name, arguments } => {
                let identity = ToolCallLedger::identity(
                    call_id.as_str(),
                    name.as_str(),
                    arguments.as_str(),
                );
                ledger.admit_call(identity);
            },
            ResponseItem::CustomToolCall { call_id, name, input } => {
                let identity = ToolCallLedger::identity_raw(
                    call_id.as_str(),
                    name.as_str(),
                    ToolKind::Custom,
                    "",
                    input.as_str(),
                );
                ledger.admit_call(identity);
            },
            ResponseItem::FunctionCallOutput { call_id, output, .. } => {
                if let Some(id) = call_id {
                    take_output(&mut ledger, id.as_str(), output.success);
                }
            },
            ResponseItem::CustomToolCallOutput { call_id, output, .. } => {
                take_output(&mut ledger, call_id.as_str(), output.success);
            },
            _ => {},
        }
        i = i + 1;
    }
    assert(all.take(i as int) =~= all);
    ledger
}

/// Tells whether the ledger has to be made from the history before it is used.
pub fn needs_ledger_restore(runtime: &EnhancedSessionRuntime) -> (r: bool)
    ensures
        r == (!runtime@.ledger_restored && runtime@.hooks.features.qwen_tool_reliability),
{
    !runtime.ledger_restored && runtime.hooks.features.qwen_tool_reliability
}

/// Makes the ledger from the history, once in a session.
pub fn restore_ledger_if_needed(
    runtime: &mut EnhancedSessionRuntime,
    history: &Vec<ResponseItem>,
)
    ensures
        final(runtime)@ == session::step_session(
            old(runtime)@,
            SessionStep::Restore { history: history.deep_view() },
        ),
        final(runtime)@ == (if !old(runtime)@.ledger_restored
            && old(runtime)@.hooks.features.qwen_tool_reliability {
            EnhancedSessionRuntimeView {
                ledger_restored: true,
                ..old(runtime)@.with_ledger(history_ledger(history.deep_view()))
            }
        } else {
            old(runtime)@
        }),
{
    proof {
        reveal(session::step_session);
    }
    if needs_ledger_restore(runtime) {
        runtime.hooks.ledger = ledger_from_history(history);
        runtime.ledger_restored = true;
    }
}

/// The answer to a duplicate is never taken for an output that is dropped.
pub proof fn law_answers_are_no_markers(call_id: Seq<char>)
    ensures
        FunctionCallErrorView::RespondToModel(tool_reliability::duplicate_message(call_id))
            != drop_error(),
{
    reveal_strlit("Tool call ");
    reveal_strlit("vellum.enhanced.drop-tool-output");
    assert(tool_reliability::duplicate_message(call_id)[0] == 'T');
    assert(DROP_TOOL_OUTPUT_MARKER@[0] == 'v');
}

/// With the port off no call is held back and no result is dropped, whatever the
/// ledger holds, and nothing is noted.
pub proof fn law_port_off_is_transparent(
    runtime: EnhancedSessionRuntimeView,
    call: ToolCallView,
    succeeded: bool,
    result_text: Option<Seq<char>>,
)
    requires
        !runtime.hooks.features.qwen_tool_reliability,
    ensures
        runtime.after_call(call) == runtime,
        runtime.call_result(call) is Ok,
        runtime.after_completion(call.call_id, succeeded, result_text) == runtime,
        runtime.completion(call.call_id, succeeded, result_text) == Ok::<
            Option<Seq<char>>,
            FunctionCallErrorView,
        >(None),
{
}

/// Without its switch the notice of a repetition is never due.
pub proof fn law_notices_need_their_switch(
    runtime: EnhancedSessionRuntimeView,
    call_id: Seq<char>,
    succeeded: bool,
    result_text: Option<Seq<char>>,
)
    requires
        !runtime.hooks.features.repetition_notice,
    ensures
        ({
            let after = runtime.after_completion(call_id, succeeded, result_text);
            &&& after.pending_repetition_notices == runtime.pending_repetition_notices
            &&& after.pending_standalone_repetition_notice
                == runtime.pending_standalone_repetition_notice
            &&& runtime.completion(call_id, succeeded, result_text) matches Ok(notice) ==> notice
                is None
        }),
{
}

/// Nothing is controlled through the telemetry: whatever events are on record, a
/// call and its result are treated the same.
pub proof fn law_telemetry_controls_no_call(
    runtime: EnhancedSessionRuntimeView,
    events: Seq<EnhancedEventView>,
    call: ToolCallView,
    succeeded: bool,
    result_text: Option<Seq<char>>,
)
    ensures
        ({
            let other = EnhancedSessionRuntimeView { telemetry: events, ..runtime };
            &&& other.call_result(call) == runtime.call_result(call)
            &&& other.after_call(call).hooks == runtime.after_call(call).hooks
            &&& other.completion(call.call_id, succeeded, result_text) == runtime.completion(
                call.call_id,
                succeeded,
                result_text,
            )
            &&& other.after_completion(call.call_id, succeeded, result_text).hooks
                == runtime.after_completion(call.call_id, succeeded, result_text).hooks
        }),
{
}

proof fn lemma_history_remembers(
    ledger: ToolCallLedgerView,
    item: ResponseItemView,
    call_id: Seq<char>,
)
    requires
        ledger.lookup(call_id) is Some,
    ensures
        history_step(ledger, item).lookup(call_id) is Some,
{
    match item {
        ResponseItemView::FunctionCall { call_id: id, name, arguments } => {
            let identity = tool_reliability::raw_identity(
                id,
                name,
                ToolKind::Function,
                ""@,
                tool_reliability::canonical_arguments(arguments),
            );
            tool_reliability::law_ledger_remembers(
                ledger,
                tool_reliability::LedgerStep::Call { identity },
                call_id,
            );
        },
        ResponseItemView::CustomToolCall { call_id: id, name, input } => {
            let identity = tool_reliability::raw_identity(id, name, ToolKind::Custom, ""@, input);
            tool_reliability::law_ledger_remembers(
                ledger,
                tool_reliability::LedgerStep::Call { identity },
                call_id,
            );
        },
        ResponseItemView::FunctionCallOutput { call_id: Some(id), output, .. } => {
            lemma_output_remembers(ledger, id, output.success, call_id);
        },
        ResponseItemView::CustomToolCallOutput { call_id: id, output, .. } => {
            lemma_output_remembers(ledger, id, output.success, call_id);
        },
        _ => {},
    }
}

proof fn lemma_output_remembers(
    ledger: ToolCallLedgerView,
    id: Seq<char>,
    success: Option<bool>,
    call_id: Seq<char>,
)
    requires
        ledger.lookup(call_id) is Some,
    ensures
        ledger.with_result(id).with_resolution(id, output_resolution(success)).lookup(
            call_id,
        ) is Some,
{
    tool_reliability::law_ledger_remembers(
        ledger,
        tool_reliability::LedgerStep::Result { call_id: id },
        call_id,
    );
    tool_reliability::law_ledger_remembers(
        ledger.with_result(id),
        tool_reliability::LedgerStep::Resolution {
            call_id: id,
            resolution: output_resolution(success),
        },
        call_id,
    );
}

/// No call of the history is executed again after a session is resumed.
pub proof fn law_history_is_not_executed_again(
    items: Seq<ResponseItemView>,
    i: int,
    identity: ProviderToolCallIdentityView,
)
    requires
        0 <= i < items.len(),
        replay::call_of(items[i]) matches Some(call) && call.call_id == identity.provider_call_id,
    ensures
        !(history_ledger(items).decision(identity) is Execute),
    decreases items.len(),
{
    let call_id = identity.provider_call_id;
    let before = history_ledger(items.drop_last());
    if i < items.len() - 1 {
        assert(items.drop_last()[i] == items[i]);
        law_history_is_not_executed_again(items.drop_last(), i, identity);
        lemma_history_remembers(before, items.last(), call_id);
    } else if before.lookup(call_id) is Some {
        lemma_history_remembers(before, items.last(), call_id);
    } else {
        match items[i] {
            ResponseItemView::FunctionCall { call_id: id, name, arguments } => {
                let made = tool_reliability::raw_identity(
                    id,
                    name,
                    ToolKind::Function,
                    ""@,
                    tool_reliability::canonical_arguments(arguments),
                );
                tool_reliability::law_call_is_found(before, made);
            },
            ResponseItemView::CustomToolCall { call_id: id, name, input } => {
                let made = tool_reliability::raw_identity(id, name, ToolKind::Custom, ""@, input);
                tool_reliability::law_call_is_found(before, made);
            },
            _ => {},
        }
    }
}

/// With the port on a call is answered by what is known under its identifier. Nothing:
/// it is executed. The same call: it is not executed; the model is told so, unless it
/// has seen the result, and then the answer is dropped. Another call: it fails. With the
/// port off every call is executed.
pub proof fn law_calls_are_answered_by_what_is_known(
    runtime: EnhancedSessionRuntimeView,
    call: ToolCallView,
)
    ensures
        ({
            let known = runtime.hooks.ledger.lookup(call.call_id);
            let answer = runtime.call_result(call);
            let on = runtime.hooks.features.qwen_tool_reliability;
            &&& !on ==> answer is Ok
            &&& on && known is None ==> answer is Ok
            &&& on && (known matches Some(entry) && entry.identity != call.identity()) ==> (
            answer matches Err(error) && error is Fatal)
            &&& on && (known matches Some(entry) && entry.identity == call.identity()
                && entry.original_result_delivered) ==> answer == Err::<(), FunctionCallErrorView>(
                FunctionCallErrorView::RespondToModel("vellum.enhanced.drop-tool-output"@),
            )
            &&& on && (known matches Some(entry) && entry.identity == call.identity()
                && !entry.original_result_delivered) ==> (answer matches Err(error) && error
                is RespondToModel && error != FunctionCallErrorView::RespondToModel(
                "vellum.enhanced.drop-tool-output"@,
            ))
        }),
{
    law_answers_are_no_markers(call.call_id);
    tool_reliability::law_calls_are_admitted_by_identity(runtime.hooks.ledger, call.identity());
}

/// A call that is executed is written down; a duplicate is written down with the call
/// that it repeats; nothing but the ledger and the telemetry changes.
pub proof fn law_admitted_calls_are_written_down(
    runtime: EnhancedSessionRuntimeView,
    call: ToolCallView,
)
    requires
        runtime.hooks.features.qwen_tool_reliability,
    ensures
        ({
            let known = runtime.hooks.ledger.lookup(call.call_id);
            let after = runtime.after_call(call);
            let later = after.hooks.ledger.lookup(call.call_id);
            &&& known is None ==> (later matches Some(entry) && entry.identity == call.identity()
                && entry.resolution == ToolCallResolution::Pending
                && !entry.original_result_delivered && !entry.synthetic_duplicate_emitted)
            &&& known matches Some(entry) ==> (entry.identity == call.identity() ==> (
            later matches Some(l) && l.synthetic_duplicate_emitted && l.resolution
                == ToolCallResolution::SyntheticDuplicate && l.original_result_delivered
                == entry.original_result_delivered))
            &&& known matches Some(entry) ==> (entry.identity != call.identity()
                ==> after.hooks.ledger == runtime.hooks.ledger)
            &&& after.telemetry.len() > runtime.telemetry.len()
            &&& after.hooks.observations == runtime.hooks.observations
            &&& after.hooks.continuation == runtime.hooks.continuation
            &&& after.context_projections == runtime.context_projections
            &&& after.pending_repetition_notices == runtime.pending_repetition_notices
        }),
{
    let ledger = runtime.hooks.ledger;
    let identity = call.identity();
    tool_reliability::law_calls_are_admitted_by_identity(ledger, identity);
    tool_reliability::law_call_is_found(ledger, identity);
    if ledger.lookup(call.call_id) is Some {
        tool_reliability::law_what_became_of_a_call_is_written_down(
            ledger,
            call.call_id,
            ToolCallResolution::SyntheticDuplicate,
        );
    } else {
        tool_reliability::law_calls_are_known_by_identifier(
            ledger.with_call(identity),
            call.call_id,
        );
        let n = ledger.entries.len() as int;
        let found = ledger.with_call(identity).lookup(call.call_id)->0;
        let k = choose|k: int|
            0 <= k < n + 1 && ledger.with_call(identity).entries[k] == found;
        tool_reliability::law_calls_are_known_by_identifier(ledger, call.call_id);
        if k < n {
            assert(ledger.with_call(identity).entries.drop_last()[k] == ledger.entries[k]);
        }
    }
}

/// What a call asks for decides whether it is the same call: functions by the value of
/// their arguments, custom tools by their input as it stands, searches by their query.
/// An absent namespace counts as an empty one.
pub proof fn law_calls_are_compared_by_what_they_ask(
    call_id: Seq<char>,
    tool_name: Seq<char>,
    namespace: Option<Seq<char>>,
    a: Seq<char>,
)
    ensures
        ({
            let space = match namespace {
                Some(n) => n,
                None => Seq::<char>::empty(),
            };
            let function = ToolCallView {
                tool_name,
                namespace,
                call_id,
                payload: ToolPayloadView::Function { arguments: a },
            };
            let custom = ToolCallView {
                tool_name,
                namespace,
                call_id,
                payload: ToolPayloadView::Custom { input: a },
            };
            let search = ToolCallView {
                tool_name,
                namespace,
                call_id,
                payload: ToolPayloadView::ToolSearch { query: a },
            };
            &&& tool_reliability::json_form(a) matches Some(value) ==> function.identity()
                == tool_reliability::raw_identity(
                call_id,
                tool_name,
                ToolKind::Function,
                space,
                value,
            )
            &&& tool_reliability::json_form(a) is None ==> function.identity()
                == tool_reliability::raw_identity(
                call_id,
                tool_name,
                ToolKind::Function,
                space,
                tool_reliability::json_string(a),
            )
            &&& custom.identity() == tool_reliability::raw_identity(
                call_id,
                tool_name,
                ToolKind::Custom,
                space,
                a,
            )
            &&& search.identity() == tool_reliability::raw_identity(
                call_id,
                tool_name,
                ToolKind::ToolSearch,
                space,
                "{\"query\":"@ + tool_reliability::json_string(a) + "}"@,
            )
            &&& function.identity() != custom.identity() && custom.identity()
                != search.identity() && function.identity() != search.identity()
        }),
{
    let space = response_items::or_empty(namespace);
    assert(response_items::or_empty(namespace) =~= match namespace {
        Some(n) => n,
        None => Seq::<char>::empty(),
    });
    tool_reliability::law_identity_covers_the_whole_call(call_id, tool_name, space, a);
}

/// The result of a call is passed on as long as the model has seen neither it nor an
/// answer to a duplicate, and from then on counts as seen; it is written down whether
/// the call succeeded. Else it is dropped, and nothing changes.
pub proof fn law_results_are_passed_on_until_seen(
    runtime: EnhancedSessionRuntimeView,
    call_id: Seq<char>,
    succeeded: bool,
    result_text: Option<Seq<char>>,
)
    requires
        runtime.hooks.features.qwen_tool_reliability,
    ensures
        ({
            let known = runtime.hooks.ledger.lookup(call_id);
            let seen = known matches Some(entry) && (entry.original_result_delivered
                || entry.synthetic_duplicate_emitted);
            let after = runtime.after_completion(call_id, succeeded, result_text);
            let answer = runtime.completion(call_id, succeeded, result_text);
            &&& seen ==> answer == Err::<Option<Seq<char>>, FunctionCallErrorView>(
                FunctionCallErrorView::RespondToModel("vellum.enhanced.drop-tool-output"@),
            ) && after == runtime
            &&& !seen ==> answer is Ok
            &&& !seen && known is Some ==> (after.hooks.ledger.lookup(call_id) matches Some(later)
                && later.original_result_delivered && later.identity == known->0.identity
                && later.resolution == (if succeeded {
                ToolCallResolution::Executed
            } else {
                ToolCallResolution::Failed
            }))
            &&& !seen ==> {
                let n = runtime.telemetry.len() as int;
                &&& after.telemetry.len() > n
                &&& after.telemetry[n].kind == EnhancedEventKind::ToolCallCompleted
                &&& after.telemetry[n].fields.succeeded == Some(succeeded)
                &&& after.telemetry[n].fields.call_id_hash == Some(digest::text_digest(call_id))
            }
        }),
{
    let ledger = runtime.hooks.ledger;
    tool_reliability::law_results_are_taken_once(ledger, call_id);
    if ledger.lookup(call_id) is Some {
        tool_reliability::law_what_became_of_a_call_is_written_down(
            ledger.with_result(call_id),
            call_id,
            if succeeded {
                ToolCallResolution::Executed
            } else {
                ToolCallResolution::Failed
            },
        );
    }
}

/// The notice of a repetition goes with a result only where the log holds two further
/// results, at the two places before it, of the same tool with the same input, the same
/// end and the same text, the notice itself left out; and only with its switch on.
pub proof fn law_notices_go_with_repetitions_only(
    runtime: EnhancedSessionRuntimeView,
    call_id: Seq<char>,
    succeeded: bool,
    t: Seq<char>,
)
    requires
        runtime.hooks.features.qwen_tool_reliability,
        runtime.completion(call_id, succeeded, Some(t)) matches Ok(notice) && notice is Some,
    ensures
        runtime.hooks.features.repetition_notice,
        ({
            let known = runtime.hooks.ledger.lookup(call_id)->0;
            let result = digest::text_digest(
                tool_observation::without_notice(t, Some(REPETITION_NOTICE@)),
            );
            let log = runtime.hooks.observations.entries;
            exists|a: int, b: int|
                {
                    &&& 0 <= a < log.len() && 0 <= b < log.len()
                    &&& #[trigger] same_result(log[a], known, result, succeeded)
                    &&& #[trigger] same_result(log[b], known, result, succeeded)
                    &&& log[a].dispatch_index == known.dispatch_index - 1
                    &&& log[b].dispatch_index == known.dispatch_index - 2
                }
        }),
        runtime.after_completion(
            call_id,
            succeeded,
            Some(t),
        ).pending_repetition_notices.contains(call_id),
{
    let log = runtime.hooks.observations;
    let known = runtime.hooks.ledger.lookup(call_id)->0;
    let input = observed(known, succeeded, Some(t));
    let notice = runtime.hooks.features.repetition_notice;
    let place = input.dispatch_index as int;
    tool_observation::law_notice_means_three_in_a_row(log, call_id, input, notice);
    tool_observation::lemma_same_is_alike(log, input, place - 1);
    tool_observation::lemma_same_is_alike(log, input, place - 2);
    let result = input.original_result_fingerprint;
    let a = choose|k: int|
        {
            &&& 0 <= k < log.entries.len()
            &&& (#[trigger] log.entries[k]).dispatch_index == place - 1
            &&& tool_observation::alike(input, log.entries[k])
            &&& !log.entries[k].native_wait_poll
        };
    let b = choose|k: int|
        {
            &&& 0 <= k < log.entries.len()
            &&& (#[trigger] log.entries[k]).dispatch_index == place - 2
            &&& tool_observation::alike(input, log.entries[k])
            &&& !log.entries[k].native_wait_poll
        };
    assert(same_result(log.entries[a], known, result, succeeded));
    assert(same_result(log.entries[b], known, result, succeeded));
}

/// Whether an observed result is one of the same call, with a result and an end.
pub open spec fn same_result(
    seen: ObservationInputView,
    call: HandledToolCallView,
    result: Seq<char>,
    succeeded: bool,
) -> bool {
    &&& seen.tool_name == call.identity.tool_name
    &&& seen.tool_kind == call.identity.tool_kind
    &&& seen.namespace == call.identity.namespace
    &&& seen.input_fingerprint == call.identity.argument_fingerprint
    &&& seen.original_result_fingerprint == result
    &&& seen.result_status == (if succeeded {
        ObservationResultStatus::Success
    } else {
        ObservationResultStatus::Failed
    })
}

/// A result that is passed on is observed: what was called, how it ended and what came
/// out, the notice left out, are in the log from then on.
pub proof fn law_passed_on_results_are_observed(
    runtime: EnhancedSessionRuntimeView,
    call_id: Seq<char>,
    succeeded: bool,
    t: Seq<char>,
)
    requires
        runtime.hooks.features.qwen_tool_reliability,
        runtime.hooks.ledger.lookup(call_id) is Some,
        runtime.completion(call_id, succeeded, Some(t)) is Ok,
    ensures
        ({
            let known = runtime.hooks.ledger.lookup(call_id)->0;
            let log = runtime.after_completion(
                call_id,
                succeeded,
                Some(t),
            ).hooks.observations.entries;
            exists|k: int|
                0 <= k < log.len() && #[trigger] same_result(
                    log[k],
                    known,
                    digest::text_digest(
                        tool_observation::without_notice(t, Some(REPETITION_NOTICE@)),
                    ),
                    succeeded,
                ) && log[k].dispatch_index == known.dispatch_index
        }),
{
    let known = runtime.hooks.ledger.lookup(call_id)->0;
    let input = observed(known, succeeded, Some(t));
    let before = runtime.hooks.observations;
    tool_observation::law_observed_results_are_kept(before, input, 0);
    let after = runtime.after_completion(call_id, succeeded, Some(t));
    assert(!runtime.drops_result(call_id));
    assert(after.hooks.observations == before.with_result(input));
    let log = after.hooks.observations.entries;
    let k = choose|k: int| 0 <= k < log.len() && log[k] == input;
    assert(log[k] == input);
    assert(same_result(
        log[k],
        known,
        digest::text_digest(tool_observation::without_notice(t, Some(REPETITION_NOTICE@))),
        succeeded,
    ));
}

/// A result for which a notice is due shows it below its text, once; every other item
/// stays as it is. A notice by itself is added behind the prompt exactly where one is
/// due and none can be seen.
pub proof fn law_due_notices_are_shown(
    runtime: EnhancedSessionRuntimeView,
    items: Seq<ResponseItemView>,
    i: int,
)
    requires
        0 <= i < items.len(),
    ensures
        ({
            let shown = with_notices(runtime, items);
            let due = runtime.pending_repetition_notices;
            let n = items.len();
            &&& shown.len() == n || shown.len() == n + 1
            &&& !runtime.pending_standalone_repetition_notice ==> shown.len() == n
            &&& items[i].answer_text() matches Some(t) ==> (items[i].answered_call() matches Some(
                call_id,
            ) ==> (due.contains(call_id) && !text::holds_text(t, REPETITION_NOTICE@)
                ==> shown[i].answer_text() == Some(t + "\n"@ + REPETITION_NOTICE@)
                && shown[i].answered_call() == Some(call_id)))
            &&& items[i].answer_text() matches Some(t) ==> (text::holds_text(
                t,
                REPETITION_NOTICE@,
            ) ==> shown[i] == items[i])
            &&& (items[i].answered_call() matches Some(call_id) ==> !due.contains(call_id))
                ==> shown[i] == items[i]
            &&& items[i].answer_text() is None ==> shown[i] == items[i]
            &&& shown.len() == n + 1 ==> shown.last() == (ResponseItemView::Message {
                role: "user"@,
                content: seq![ContentItemView::InputText { text: REPETITION_NOTICE@ }],
            })
        }),
{
}

/// A notice that can be seen is not added again: where any output shows it, or any
/// message, none is added; where none does and one is due by itself, it is.
pub proof fn law_a_visible_notice_is_enough(
    runtime: EnhancedSessionRuntimeView,
    items: Seq<ResponseItemView>,
    i: int,
)
    requires
        0 <= i < items.len(),
        runtime.pending_standalone_repetition_notice,
    ensures
        ({
            let shown = with_notices(runtime, items);
            &&& items[i].answer_text() matches Some(t) ==> (text::holds_text(
                t,
                REPETITION_NOTICE@,
            ) ==> shown.len() == items.len())
            &&& items[i] matches ResponseItemView::Message { content, .. } ==> (text::holds_text(
                response_items::message_text(content),
                REPETITION_NOTICE@,
            ) ==> shown.len() == items.len())
            &&& runtime.pending_repetition_notices == Set::<Seq<char>>::empty() && (forall|k: int|
                0 <= k < items.len() ==> !shows_notice(#[trigger] items[k])) ==> shown.len()
                == items.len() + 1
        }),
{
    let marked = items.map_values(
        |item: ResponseItemView| with_notice(item, runtime.pending_repetition_notices),
    );
    assert(marked[i] == with_notice(items[i], runtime.pending_repetition_notices));
    if shows_notice(items[i]) {
        assert(shows_notice(marked[i]));
    }
    if runtime.pending_repetition_notices == Set::<Seq<char>>::empty() && (forall|k: int|
        0 <= k < items.len() ==> !shows_notice(#[trigger] items[k])) {
        assert forall|k: int| 0 <= k < marked.len() implies !shows_notice(#[trigger] marked[k]) by {
            assert(marked[k] == items[k]);
        }
    }
}

/// The ledger of a history knows its calls, by name and kind, without a namespace, and
/// what became of them: a call is pending until its output, which counts as seen, and
/// as failed only where it says so.
pub proof fn law_history_is_written_down(
    items: Seq<ResponseItemView>,
    call_id: Seq<char>,
    name: Seq<char>,
    input: Seq<char>,
    output: response_items::OutputPayloadView,
    output_name: Option<Seq<char>>,
)
    ensures
        history_ledger(seq![]).entries.len() == 0,
        ({
            let before = history_ledger(items);
            let called = history_ledger(
                items.push(ResponseItemView::FunctionCall { call_id, name, arguments: input }),
            );
            let custom = history_ledger(
                items.push(ResponseItemView::CustomToolCall { call_id, name, input }),
            );
            before.lookup(call_id) is None ==> {
                &&& called.entries.len() == before.entries.len() + 1
                &&& called.entries.last().identity == tool_reliability::raw_identity(
                    call_id,
                    name,
                    ToolKind::Function,
                    seq![],
                    tool_reliability::canonical_arguments(input),
                )
                &&& called.entries.last().resolution == ToolCallResolution::Pending
                &&& custom.entries.len() == before.entries.len() + 1
                &&& custom.entries.last().identity == tool_reliability::raw_identity(
                    call_id,
                    name,
                    ToolKind::Custom,
                    seq![],
                    input,
                )
            }
        }),
        ({
            let before = history_ledger(items);
            let function = history_ledger(
                items.push(
                    ResponseItemView::FunctionCallOutput {
                        call_id: Some(call_id),
                        name: output_name,
                        output,
                    },
                ),
            );
            let custom = history_ledger(
                items.push(
                    ResponseItemView::CustomToolCallOutput { call_id, name: output_name, output },
                ),
            );
            &&& function == custom
            &&& before.lookup(call_id) matches Some(known) ==> (!known.synthetic_duplicate_emitted
                ==> (function.lookup(call_id) matches Some(later)
                && later.original_result_delivered && later.identity == known.identity
                && later.resolution == (if output.success == Some(false) {
                ToolCallResolution::Failed
            } else {
                ToolCallResolution::Executed
            })))
        }),
{
    let before = history_ledger(items);
    reveal_strlit("");
    assert(""@ =~= seq![]);
    let call = ResponseItemView::FunctionCall { call_id, name, arguments: input };
    let custom_call = ResponseItemView::CustomToolCall { call_id, name, input };
    let answer = ResponseItemView::FunctionCallOutput {
        call_id: Some(call_id),
        name: output_name,
        output,
    };
    let custom_answer = ResponseItemView::CustomToolCallOutput {
        call_id,
        name: output_name,
        output,
    };
    assert(items.push(call).drop_last() =~= items);
    assert(items.push(custom_call).drop_last() =~= items);
    assert(items.push(answer).drop_last() =~= items);
    assert(items.push(custom_answer).drop_last() =~= items);
    tool_reliability::law_results_are_taken_once(before, call_id);
    tool_reliability::law_what_became_of_a_call_is_written_down(
        before.with_result(call_id),
        call_id,
        if output.success == Some(false) {
            ToolCallResolution::Failed
        } else {
            ToolCallResolution::Executed
        },
    );
}

/// A call in a response that is being read is left out exactly where the port is on and
/// the first call under its identifier had the same name and payload.
pub proof fn law_replays_in_a_response_are_left_out(
    runtime: EnhancedSessionRuntimeView,
    item: ResponseItemView,
    seen: replay::SeenCallsView,
)
    ensures
        is_suppressed(runtime, item, seen) ==> runtime.hooks.features.qwen_tool_reliability,
        runtime.hooks.features.qwen_tool_reliability ==> (is_suppressed(runtime, item, seen) <==> (
        replay::call_of(item) matches Some(call) && seen.lookup(call.call_id) == Some(call))),
{
}

/// With the port on replays go out of a prompt, with it off nothing does.
pub proof fn law_replays_go_with_the_port_on(
    runtime: EnhancedSessionRuntimeView,
    items: Seq<ResponseItemView>,
)
    ensures
        !runtime.hooks.features.qwen_tool_reliability ==> prompt_without_replays(runtime, items)
            == items,
        runtime.hooks.features.qwen_tool_reliability ==> prompt_without_replays(runtime, items)
            == replay::without_replays(items, items.len() as int),
{
}

/// The notice never goes with a result of waiting, however often it repeats.
pub proof fn law_waiting_gets_no_notice(
    runtime: EnhancedSessionRuntimeView,
    call_id: Seq<char>,
    succeeded: bool,
    result_text: Option<Seq<char>>,
)
    requires
        runtime.hooks.ledger.lookup(call_id) matches Some(known) && known.identity.tool_name
            == "wait"@ && known.identity.tool_kind == ToolKind::Function
            && known.identity.namespace.len() == 0,
    ensures
        runtime.completion(call_id, succeeded, result_text) matches Ok(notice) ==> notice is None,
        runtime.after_completion(call_id, succeeded, result_text).pending_repetition_notices
            == runtime.pending_repetition_notices,
{
    let known = runtime.hooks.ledger.lookup(call_id)->0;
    tool_observation::law_waiting_is_never_noticed(
        runtime.hooks.observations,
        call_id,
        observed(known, succeeded, result_text),
        runtime.hooks.features.repetition_notice,
    );
}

/// A result without a text counts as one that says how the call ended: it is passed on,
/// observed and noticed the same.
pub proof fn law_results_without_text_tell_the_end(
    runtime: EnhancedSessionRuntimeView,
    call_id: Seq<char>,
)
    ensures
        runtime.after_completion(call_id, true, None) == runtime.after_completion(
            call_id,
            true,
            Some("success"@),
        ),
        runtime.completion(call_id, true, None) == runtime.completion(
            call_id,
            true,
            Some("success"@),
        ),
        runtime.after_completion(call_id, false, None) == runtime.after_completion(
            call_id,
            false,
            Some("failed"@),
        ),
        runtime.completion(call_id, false, None) == runtime.completion(
            call_id,
            false,
            Some("failed"@),
        ),
        completed_event(call_id, true).fields.outcome == Some("executed"@),
        completed_event(call_id, false).fields.outcome == Some("failed"@),
{
}

} // verus!
