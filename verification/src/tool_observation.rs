//! Noticing that the same call is made again and again with the same result.

use crate::digest;
use crate::search;
use crate::telemetry;
use crate::telemetry::{EnhancedEvent, EnhancedEventKind, EnhancedEventView};
use crate::text;
use crate::tool_reliability;
use crate::tool_reliability::ToolKind;
use vstd::prelude::*;

verus! {

/// What the model is told when it repeats itself.
pub const REPETITION_NOTICE: &'static str =
    "Notice: the same tool, input, and original result have now occurred three times in a row. Consider a different approach.";

/// How often a call is repeated before it is noticed.
pub const REPETITION_LIMIT: u8 = 3;

/// How a call ended.
#[derive(Debug, Clone, Copy, PartialEq, Eq, Structural)]
pub enum ObservationResultStatus {
    Success,
    Failed,
}

/// A call together with its result.
#[derive(Debug, PartialEq, Eq)]
pub struct ObservationInput {
    pub tool_name: String,
    pub tool_kind: ToolKind,
    pub namespace: String,
    pub input_fingerprint: String,
    pub original_result_fingerprint: String,
    /// The place of the call in the order in which calls were admitted.
    pub dispatch_index: u64,
    pub result_status: ObservationResultStatus,
    /// The call only asks whether something is done; it may be repeated.
    pub native_wait_poll: bool,
}

/// The model of [`ObservationInput`].
#[verifier::ext_equal]
pub struct ObservationInputView {
    pub tool_name: Seq<char>,
    pub tool_kind: ToolKind,
    pub namespace: Seq<char>,
    pub input_fingerprint: Seq<char>,
    pub original_result_fingerprint: Seq<char>,
    pub dispatch_index: u64,
    pub result_status: ObservationResultStatus,
    pub native_wait_poll: bool,
}

impl View for ObservationInput {
    type V = ObservationInputView;

    open spec fn view(&self) -> ObservationInputView {
        ObservationInputView {
            tool_name: self.tool_name@,
            tool_kind: self.tool_kind,
            namespace: self.namespace@,
            input_fingerprint: self.input_fingerprint@,
            original_result_fingerprint: self.original_result_fingerprint@,
            dispatch_index: self.dispatch_index,
            result_status: self.result_status,
            native_wait_poll: self.native_wait_poll,
        }
    }
}

impl DeepView for ObservationInput {
    type V = ObservationInputView;

    open spec fn deep_view(&self) -> ObservationInputView {
        self@
    }
}

impl Clone for ObservationInput {
    fn clone(&self) -> (r: Self)
        ensures
            r@ == self@,
    {
        ObservationInput {
            tool_name: self.tool_name.clone(),
            tool_kind: self.tool_kind,
            namespace: self.namespace.clone(),
            input_fingerprint: self.input_fingerprint.clone(),
            original_result_fingerprint: self.original_result_fingerprint.clone(),
            dispatch_index: self.dispatch_index,
            result_status: self.result_status,
            native_wait_poll: self.native_wait_poll,
        }
    }
}

/// What is told about a repetition.
#[derive(Debug, Clone, Copy, PartialEq, Eq, Structural)]
pub struct ObservationDecision {
    /// The notice goes with the result at hand, which is the last of its row.
    pub emit_model_notice: bool,
    /// The notice stands by itself, for the row ends with another result.
    pub standalone_notice: bool,
}

/// What observing a result came to.
#[derive(Debug, PartialEq, Eq)]
pub struct ObservationOutcome {
    pub decision: ObservationDecision,
    pub events: Vec<EnhancedEvent>,
}

/// The model of [`ObservationOutcome`].
#[verifier::ext_equal]
pub struct ObservationOutcomeView {
    pub decision: ObservationDecision,
    pub events: Seq<EnhancedEventView>,
}

impl View for ObservationOutcome {
    type V = ObservationOutcomeView;

    open spec fn view(&self) -> ObservationOutcomeView {
        ObservationOutcomeView {
            decision: self.decision,
            events: self.events.deep_view(),
        }
    }
}

impl DeepView for ObservationOutcome {
    type V = ObservationOutcomeView;

    open spec fn deep_view(&self) -> ObservationOutcomeView {
        self@
    }
}

impl Clone for ObservationOutcome {
    fn clone(&self) -> (r: Self)
        ensures
            r@ == self@,
    {
        ObservationOutcome {
            decision: self.decision,
            events: self.events.clone(),
        }
    }
}

/// The results that were observed, at most one for each place in the order of calls.
#[derive(Debug)]
pub struct ObservationLog {
    entries: Vec<ObservationInput>,
}

/// The model of [`ObservationLog`].
#[verifier::ext_equal]
pub struct ObservationLogView {
    pub entries: Seq<ObservationInputView>,
}

impl View for ObservationLog {
    type V = ObservationLogView;

    closed spec fn view(&self) -> ObservationLogView {
        ObservationLogView {
            entries: self.entries.deep_view(),
        }
    }
}

impl DeepView for ObservationLog {
    type V = ObservationLogView;

    open spec fn deep_view(&self) -> ObservationLogView {
        self@
    }
}

impl Clone for ObservationLog {
    fn clone(&self) -> (r: Self)
        ensures
            r@ == self@,
    {
        ObservationLog {
            entries: self.entries.clone(),
        }
    }
}

impl ObservationInputView {
    /// Whether two calls are the same and had the same result. A call that only
    /// waits is never the same as another.
    pub open spec fn repeats(self, other: Self) -> bool {
        &&& !self.native_wait_poll
        &&& !other.native_wait_poll
        &&& self.tool_name == other.tool_name
        &&& self.tool_kind == other.tool_kind
        &&& self.namespace == other.namespace
        &&& self.input_fingerprint == other.input_fingerprint
        &&& self.original_result_fingerprint == other.original_result_fingerprint
        &&& self.result_status == other.result_status
    }
}

/// The text of a result without a notice that was put behind it.
pub open spec fn without_notice(result: Seq<char>, notice: Option<Seq<char>>) -> Seq<char> {
    match notice {
        Some(n) => if text::ends_with(result, "\n"@ + n) {
            result.take(result.len() - ("\n"@ + n).len())
        } else {
            result
        },
        None => result,
    }
}

/// The fingerprint of a result as the tool gave it. A notice that was put behind
/// it does not count.
pub fn fingerprint_original_result(result: &str, notice: Option<&str>) -> (r: String)
    ensures
        r@ == digest::text_digest(without_notice(result@, notice.deep_view())),
{
    match notice {
        Some(n) => {
            let mut end = "\n".to_owned();
            end.append(n);
            if text::ends_with_text(result, end.as_str()) {
                let chars = text::characters(result);
                let length: usize = end.as_str().unicode_len();
                let kept = text::text_of(&chars, 0, chars.len() - length);
                assert(kept@ =~= result@.take(result@.len() - end@.len()));
                digest::text_sha256(kept.as_str())
            } else {
                digest::text_sha256(result)
            }
        },
        None => digest::text_sha256(result),
    }
}

/// Whether a call only asks whether something is done.
pub open spec fn is_wait_poll(
    tool_name: Seq<char>,
    kind: ToolKind,
    namespace: Seq<char>,
) -> bool {
    tool_name == "wait"@ && kind == ToolKind::Function && namespace.len() == 0
}

/// Tells whether a call only asks whether something is done.
pub fn is_native_wait_poll(tool_name: &str, kind: ToolKind, namespace: &str) -> (r: bool)
    ensures
        r == is_wait_poll(tool_name@, kind, namespace@),
{
    text::same_text(tool_name, "wait") && kind == ToolKind::Function && namespace.unicode_len()
        == 0
}

impl ObservationLogView {
    /// A log without results.
    pub open spec fn empty() -> Self {
        ObservationLogView { entries: seq![] }
    }

    /// Whether the result at a position belongs to a place in the order of calls.
    pub open spec fn belongs(self, place: u64) -> spec_fn(int) -> bool {
        |i: int| self.entries[i].dispatch_index == place
    }

    /// The position of the result for a place, or the number of results where
    /// there is none.
    pub open spec fn position(self, place: u64) -> int {
        search::first_below(self.entries.len(), self.belongs(place))
    }

    /// The result for a place in the order of calls.
    pub open spec fn at(self, place: u64) -> Option<ObservationInputView> {
        if self.position(place) < self.entries.len() {
            Some(self.entries[self.position(place)])
        } else {
            None
        }
    }

    /// The log once a result is observed. It takes the place of an earlier one
    /// for the same call.
    pub open spec fn with_result(self, input: ObservationInputView) -> Self {
        ObservationLogView {
            entries: if self.at(input.dispatch_index) is Some {
                self.entries.update(self.position(input.dispatch_index), input)
            } else {
                self.entries.push(input)
            },
        }
    }

    /// How many results in a row before a place are the same, up to `limit`.
    pub open spec fn row_before(self, input: ObservationInputView, place: u64, limit: nat) -> nat
        decreases limit,
    {
        if limit == 0 || place == 0 {
            0
        } else {
            match self.at((place - 1) as u64) {
                Some(other) => if input.repeats(other) {
                    1 + self.row_before(input, (place - 1) as u64, (limit - 1) as nat)
                } else {
                    0
                },
                None => 0,
            }
        }
    }

    /// How many results in a row after a place are the same, up to `limit`.
    pub open spec fn row_after(self, input: ObservationInputView, place: u64, limit: nat) -> nat
        decreases limit,
    {
        if limit == 0 || place == u64::MAX {
            0
        } else {
            match self.at((place + 1) as u64) {
                Some(other) => if input.repeats(other) {
                    1 + self.row_after(input, (place + 1) as u64, (limit - 1) as nat)
                } else {
                    0
                },
                None => 0,
            }
        }
    }

    /// Whether a result is the one that makes a row long enough to be noticed. A
    /// row that was long enough without it was noticed before.
    pub open spec fn completes_row(self, input: ObservationInputView) -> bool {
        let before = self.row_before(input, input.dispatch_index, REPETITION_LIMIT as nat);
        let after = self.row_after(input, input.dispatch_index, REPETITION_LIMIT as nat);
        before < REPETITION_LIMIT && after < REPETITION_LIMIT && before + 1 + after
            >= REPETITION_LIMIT
    }

    /// The outcome of observing a result: what is told, and the report of it.
    pub open spec fn outcome(
        self,
        call_id: Seq<char>,
        input: ObservationInputView,
        notice: bool,
    ) -> ObservationOutcomeView {
        let fields = tool_reliability::call_fields(call_id);
        let last = self.row_after(input, input.dispatch_index, REPETITION_LIMIT as nat) == 0;
        if !self.completes_row(input) {
            ObservationOutcomeView {
                decision: ObservationDecision {
                    emit_model_notice: false,
                    standalone_notice: false,
                },
                events: seq![],
            }
        } else if notice {
            ObservationOutcomeView {
                decision: ObservationDecision {
                    emit_model_notice: last,
                    standalone_notice: !last,
                },
                events: seq![
                    telemetry::event(EnhancedEventKind::ToolRepetitionObserved, fields),
                    telemetry::event(EnhancedEventKind::ToolRepetitionNoticeAppended, fields),
                ],
            }
        } else {
            ObservationOutcomeView {
                decision: ObservationDecision {
                    emit_model_notice: false,
                    standalone_notice: false,
                },
                events: seq![
                    telemetry::event(EnhancedEventKind::ToolRepetitionObserved, fields),
                ],
            }
        }
    }
}

/// Tells whether two calls are the same and had the same result.
fn repeats(a: &ObservationInput, b: &ObservationInput) -> (r: bool)
    ensures
        r == a@.repeats(b@),
{
    !a.native_wait_poll && !b.native_wait_poll && text::same_text(
        a.tool_name.as_str(),
        b.tool_name.as_str(),
    ) && a.tool_kind == b.tool_kind && text::same_text(a.namespace.as_str(), b.namespace.as_str())
        && text::same_text(a.input_fingerprint.as_str(), b.input_fingerprint.as_str())
        && text::same_text(
        a.original_result_fingerprint.as_str(),
        b.original_result_fingerprint.as_str(),
    ) && a.result_status == b.result_status
}

impl ObservationLog {
    /// A log without results.
    pub fn new() -> (r: Self)
        ensures
            r@ == ObservationLogView::empty(),
    {
        let r = ObservationLog { entries: Vec::new() };
        assert(r@.entries =~= seq![]);
        r
    }

    /// The position of the result for a place, or the number of results where
    /// there is none.
    fn find(&self, place: u64) -> (r: usize)
        ensures
            r as int == self@.position(place),
            r <= self@.entries.len(),
    {
        let ghost n = self@.entries.len();
        let ghost belongs = self@.belongs(place);
        let mut i: usize = 0;
        while i < self.entries.len() && self.entries[i].dispatch_index != place
            invariant
                i <= self.entries.len(),
                n == self.entries.len(),
                belongs == self@.belongs(place),
                forall|k: int| 0 <= k < i ==> !#[trigger] belongs(k),
            decreases self.entries.len() - i,
        {
            assert(self@.entries[i as int] == self.entries@[i as int]@);
            i = i + 1;
        }
        proof {
            if i < n {
                assert(self@.entries[i as int] == self.entries@[i as int]@);
            }
            search::lemma_first_below_is(n, belongs, i as int);
        }
        i
    }

    /// Tells whether the result for a place is the same.
    fn repeated_at(&self, input: &ObservationInput, place: u64) -> (r: bool)
        ensures
            r == (self@.at(place) matches Some(other) && input@.repeats(other)),
    {
        let i: usize = self.find(place);
        if i < self.entries.len() {
            assert(self@.entries[i as int] == self.entries@[i as int]@);
            repeats(input, &self.entries[i])
        } else {
            false
        }
    }

    /// How many results in a row before a place are the same, up to `limit`.
    fn count_before(&self, input: &ObservationInput, place: u64, limit: u8) -> (r: u8)
        ensures
            r as nat == self@.row_before(input@, place, limit as nat),
            r <= limit,
        decreases limit,
    {
        if limit == 0 || place == 0 || !self.repeated_at(input, place - 1) {
            0
        } else {
            1 + self.count_before(input, place - 1, limit - 1)
        }
    }

    /// How many results in a row after a place are the same, up to `limit`.
    fn count_after(&self, input: &ObservationInput, place: u64, limit: u8) -> (r: u8)
        ensures
            r as nat == self@.row_after(input@, place, limit as nat),
            r <= limit,
        decreases limit,
    {
        if limit == 0 || place == u64::MAX || !self.repeated_at(input, place + 1) {
            0
        } else {
            1 + self.count_after(input, place + 1, limit - 1)
        }
    }

    /// Observes the result of a call. With `notice`, the model is told when the
    /// result completes a row of three that are the same.
    pub fn observe(&mut self, call_id: &str, input: ObservationInput, notice: bool) -> (r:
        ObservationOutcome)
        ensures
            r@ == old(self)@.outcome(call_id@, input@, notice),
            final(self)@ == old(self)@.with_result(input@),
    {
        let ghost start = self@;
        let before: u8 = self.count_before(&input, input.dispatch_index, REPETITION_LIMIT);
        let after: u8 = self.count_after(&input, input.dispatch_index, REPETITION_LIMIT);
        let i: usize = self.find(input.dispatch_index);
        if i < self.entries.len() {
            self.entries.set(i, input);
            assert(self@.entries =~= start.entries.update(i as int, input@));
        } else {
            self.entries.push(input);
            assert(self@.entries =~= start.entries.push(input@));
        }
        let mut events: Vec<EnhancedEvent> = Vec::new();
        let completes: bool = before < REPETITION_LIMIT && after < REPETITION_LIMIT && before + 1
            + after >= REPETITION_LIMIT;
        if completes {
            let fields = tool_reliability::fields_of_call(call_id);
            events.push(
                EnhancedEvent::new(EnhancedEventKind::ToolRepetitionObserved, fields.clone()),
            );
            if notice {
                events.push(
                    EnhancedEvent::new(EnhancedEventKind::ToolRepetitionNoticeAppended, fields),
                );
            }
        }
        assert(events.deep_view() =~= start.outcome(call_id@, input@, notice).events);
        ObservationOutcome {
            decision: ObservationDecision {
                emit_model_notice: completes && notice && after == 0,
                standalone_notice: completes && notice && after > 0,
            },
            events,
        }
    }
}

/// Whether the result for a place is the same as a given one.
pub open spec fn same_at(log: ObservationLogView, input: ObservationInputView, place: int) -> bool {
    0 <= place <= u64::MAX && (log.at(place as u64) matches Some(other) && input.repeats(other))
}

proof fn lemma_row_before(
    log: ObservationLogView,
    input: ObservationInputView,
    place: u64,
    limit: nat,
    k: int,
)
    requires
        0 < k <= log.row_before(input, place, limit),
    ensures
        same_at(log, input, place - k),
    decreases limit,
{
    if k > 1 {
        lemma_row_before(log, input, (place - 1) as u64, (limit - 1) as nat, k - 1);
    }
}

proof fn lemma_row_after(
    log: ObservationLogView,
    input: ObservationInputView,
    place: u64,
    limit: nat,
    k: int,
)
    requires
        0 < k <= log.row_after(input, place, limit),
    ensures
        same_at(log, input, place + k),
    decreases limit,
{
    if k > 1 {
        lemma_row_after(log, input, (place + 1) as u64, (limit - 1) as nat, k - 1);
    }
}

/// Nothing is told unless the same call had the same result three times in a row,
/// the one at hand among them; nothing is told of it twice for one row, and
/// nothing at all without the switch.
pub proof fn law_notice_means_three_in_a_row(
    log: ObservationLogView,
    call_id: Seq<char>,
    input: ObservationInputView,
    notice: bool,
)
    ensures
        ({
            let outcome = log.outcome(call_id, input, notice);
            let place = input.dispatch_index as int;
            &&& outcome.decision.emit_model_notice || outcome.decision.standalone_notice ==> notice
                && outcome.events.len() == 2
            &&& !(outcome.decision.emit_model_notice && outcome.decision.standalone_notice)
            &&& outcome.decision.emit_model_notice ==> same_at(log, input, place - 1) && same_at(
                log,
                input,
                place - 2,
            ) && !same_at(log, input, place + 1)
            &&& outcome.events.len() > 0 ==> (same_at(log, input, place - 1) && same_at(
                log,
                input,
                place - 2,
            )) || (same_at(log, input, place - 1) && same_at(log, input, place + 1)) || (same_at(
                log,
                input,
                place + 1,
            ) && same_at(log, input, place + 2))
            &&& outcome.events.len() > 0 ==> !(same_at(log, input, place - 1) && same_at(
                log,
                input,
                place - 2,
            ) && same_at(log, input, place - 3)) && !(same_at(log, input, place + 1) && same_at(
                log,
                input,
                place + 2,
            ) && same_at(log, input, place + 3))
        }),
{
    let place = input.dispatch_index;
    let limit = REPETITION_LIMIT as nat;
    let before = log.row_before(input, place, limit);
    let after = log.row_after(input, place, limit);
    reveal_with_fuel(ObservationLogView::row_before, 4);
    reveal_with_fuel(ObservationLogView::row_after, 4);
    if before >= 1 {
        lemma_row_before(log, input, place, limit, 1);
    }
    if before >= 2 {
        lemma_row_before(log, input, place, limit, 2);
    }
    if after >= 1 {
        lemma_row_after(log, input, place, limit, 1);
    }
    if after >= 2 {
        lemma_row_after(log, input, place, limit, 2);
    }
}

/// A call that only waits is never noticed.
pub proof fn law_waiting_is_never_noticed(
    log: ObservationLogView,
    call_id: Seq<char>,
    input: ObservationInputView,
    notice: bool,
)
    requires
        input.native_wait_poll,
    ensures
        log.outcome(call_id, input, notice).events.len() == 0,
{
}

/// Whether an observed result has all in common with another that makes it a
/// repetition: tool, input, result and how it ended.
pub open spec fn alike(a: ObservationInputView, b: ObservationInputView) -> bool {
    &&& a.tool_name == b.tool_name
    &&& a.tool_kind == b.tool_kind
    &&& a.namespace == b.namespace
    &&& a.input_fingerprint == b.input_fingerprint
    &&& a.original_result_fingerprint == b.original_result_fingerprint
    &&& a.result_status == b.result_status
}

/// Whether the log holds, for a place, a result that is alike.
pub open spec fn holds_alike(
    log: ObservationLogView,
    input: ObservationInputView,
    place: int,
) -> bool {
    exists|k: int|
        {
            &&& 0 <= k < log.entries.len()
            &&& (#[trigger] log.entries[k]).dispatch_index == place
            &&& alike(input, log.entries[k])
            &&& !log.entries[k].native_wait_poll
        }
}

/// Whether every result that the log holds for a place is alike and is no waiting.
pub open spec fn holds_only_alike(
    log: ObservationLogView,
    input: ObservationInputView,
    place: int,
) -> bool {
    holds_alike(log, input, place) && forall|k: int|
        0 <= k < log.entries.len() && (#[trigger] log.entries[k]).dispatch_index == place
            ==> alike(input, log.entries[k]) && !log.entries[k].native_wait_poll
}

proof fn lemma_at(log: ObservationLogView, place: u64)
    ensures
        log.at(place) matches Some(entry) ==> exists|k: int|
            0 <= k < log.entries.len() && #[trigger] log.entries[k] == entry
                && entry.dispatch_index == place,
        log.at(place) is None ==> forall|k: int|
            0 <= k < log.entries.len() ==> (#[trigger] log.entries[k]).dispatch_index != place,
{
    let p = log.belongs(place);
    search::lemma_first_below(log.entries.len(), p);
    if log.at(place) is Some {
        let k = log.position(place);
        assert(p(k));
        assert(log.entries[k].dispatch_index == place);
    } else {
        assert forall|k: int| 0 <= k < log.entries.len() implies (
        #[trigger] log.entries[k]).dispatch_index != place by {
            assert(!p(k));
        }
    }
}

pub proof fn lemma_same_is_alike(log: ObservationLogView, input: ObservationInputView, place: int)
    ensures
        same_at(log, input, place) ==> holds_alike(log, input, place) && !input.native_wait_poll,
        !input.native_wait_poll && 0 <= place <= u64::MAX && holds_only_alike(log, input, place)
            ==> same_at(log, input, place),
{
    if 0 <= place <= u64::MAX {
        lemma_at(log, place as u64);
        if let Some(entry) = log.at(place as u64) {
            let k = choose|k: int|
                0 <= k < log.entries.len() && #[trigger] log.entries[k] == entry
                    && entry.dispatch_index == place;
            assert(log.entries[k].dispatch_index == place);
        } else if holds_alike(log, input, place) {
            let k = choose|k: int|
                {
                    &&& 0 <= k < log.entries.len()
                    &&& (#[trigger] log.entries[k]).dispatch_index == place
                    &&& alike(input, log.entries[k])
                    &&& !log.entries[k].native_wait_poll
                };
            assert(log.entries[k].dispatch_index == place);
        }
    }
}

/// A repetition is pointed out only where it is one: a result is reported, or noticed,
/// only if the log holds two further results at the places next to it in the row, each
/// of the same tool with the same input, the same result and the same end.
pub proof fn law_only_equal_results_are_a_row(
    log: ObservationLogView,
    call_id: Seq<char>,
    input: ObservationInputView,
    notice: bool,
)
    ensures
        ({
            let outcome = log.outcome(call_id, input, notice);
            let place = input.dispatch_index as int;
            outcome.events.len() > 0 || outcome.decision.emit_model_notice
                || outcome.decision.standalone_notice ==> !input.native_wait_poll && ((holds_alike(
                log,
                input,
                place - 1,
            ) && holds_alike(log, input, place - 2)) || (holds_alike(log, input, place - 1)
                && holds_alike(log, input, place + 1)) || (holds_alike(log, input, place + 1)
                && holds_alike(log, input, place + 2)))
        }),
{
    let place = input.dispatch_index as int;
    law_notice_means_three_in_a_row(log, call_id, input, notice);
    lemma_same_is_alike(log, input, place - 1);
    lemma_same_is_alike(log, input, place - 2);
    lemma_same_is_alike(log, input, place + 1);
    lemma_same_is_alike(log, input, place + 2);
}

/// Where the two results before one are the same as it, and the row began there, the
/// third is reported; with its switch on the notice goes with it if nothing of the row
/// stands behind it.
pub proof fn law_the_third_in_a_row_is_pointed_out(
    log: ObservationLogView,
    call_id: Seq<char>,
    input: ObservationInputView,
    notice: bool,
)
    requires
        !input.native_wait_poll,
        input.dispatch_index >= 2,
        holds_only_alike(log, input, input.dispatch_index - 1),
        holds_only_alike(log, input, input.dispatch_index - 2),
        !holds_alike(log, input, input.dispatch_index - 3),
        !holds_alike(log, input, input.dispatch_index + 1),
    ensures
        ({
            let outcome = log.outcome(call_id, input, notice);
            &&& outcome.events.len() > 0
            &&& outcome.events[0].kind == EnhancedEventKind::ToolRepetitionObserved
            &&& outcome.decision.emit_model_notice == notice
            &&& !outcome.decision.standalone_notice
        }),
{
    let place = input.dispatch_index;
    reveal_with_fuel(ObservationLogView::row_before, 4);
    reveal_with_fuel(ObservationLogView::row_after, 4);
    lemma_same_is_alike(log, input, place - 1);
    lemma_same_is_alike(log, input, place - 2);
    lemma_same_is_alike(log, input, place - 3);
    lemma_same_is_alike(log, input, place + 1);
}

/// Where a result stands between two that are the same as it, and the row is no
/// longer, it is reported; with its switch on the notice stands by itself.
pub proof fn law_a_row_closed_in_the_middle_is_pointed_out(
    log: ObservationLogView,
    call_id: Seq<char>,
    input: ObservationInputView,
    notice: bool,
)
    requires
        !input.native_wait_poll,
        1 <= input.dispatch_index < u64::MAX,
        holds_only_alike(log, input, input.dispatch_index - 1),
        holds_only_alike(log, input, input.dispatch_index + 1),
        !holds_alike(log, input, input.dispatch_index - 2),
        !holds_alike(log, input, input.dispatch_index + 2),
    ensures
        ({
            let outcome = log.outcome(call_id, input, notice);
            &&& outcome.events.len() > 0
            &&& outcome.decision.standalone_notice == notice
            &&& !outcome.decision.emit_model_notice
        }),
{
    let place = input.dispatch_index;
    reveal_with_fuel(ObservationLogView::row_before, 4);
    reveal_with_fuel(ObservationLogView::row_after, 4);
    lemma_same_is_alike(log, input, place - 1);
    lemma_same_is_alike(log, input, place - 2);
    lemma_same_is_alike(log, input, place + 1);
    lemma_same_is_alike(log, input, place + 2);
}

/// A result that is observed is in the log from then on, and the results of other
/// places are there as before.
pub proof fn law_observed_results_are_kept(
    log: ObservationLogView,
    input: ObservationInputView,
    k: int,
)
    ensures
        log.with_result(input).entries.contains(input),
        0 <= k < log.entries.len() && log.entries[k].dispatch_index != input.dispatch_index
            ==> log.with_result(input).entries.contains(log.entries[k]),
        log.with_result(input).entries.len() <= log.entries.len() + 1,
{
    let p = log.belongs(input.dispatch_index);
    search::lemma_first_below(log.entries.len(), p);
    let after = log.with_result(input);
    let at = log.position(input.dispatch_index);
    if log.at(input.dispatch_index) is Some {
        assert(p(at));
        assert(after.entries[at] == input);
    } else {
        assert(after.entries[log.entries.len() as int] == input);
    }
    if 0 <= k < log.entries.len() && log.entries[k].dispatch_index != input.dispatch_index {
        assert(after.entries[k] == log.entries[k]);
    }
}

proof fn lemma_line_of(n: Seq<char>)
    ensures
        "\n"@ + n == seq!['\n'] + n,
{
    reveal_strlit("\n");
    assert("\n"@ =~= seq!['\n']);
}

/// The notice on a line behind a result is taken off before results are compared.
pub proof fn law_notices_do_not_tell_results_apart(t: Seq<char>, n: Seq<char>)
    ensures
        without_notice(t + (seq!['\n'] + n), Some(n)) == t,
{
    lemma_line_of(n);
    let line = seq!['\n'] + n;
    let whole = t + line;
    text::law_parts_are_held(t, seq![], line);
    assert(whole.take(whole.len() - line.len()) =~= t);
}

/// Nothing but the notice on a line of its own is taken off a result.
pub proof fn law_results_are_compared_whole(t: Seq<char>, n: Seq<char>)
    ensures
        without_notice(t, None) == t,
        without_notice(t, Some(n)) == t || without_notice(t, Some(n)) + (seq!['\n'] + n) == t,
{
    lemma_line_of(n);
    let line = seq!['\n'] + n;
    if text::ends_with(t, line) {
        text::law_held_text_stands_there(t, line);
        let cut = t.len() - line.len();
        assert(without_notice(t, Some(n)) == t.take(cut));
        assert(t =~= t.take(cut) + t.skip(cut));
    }
}

/// A row is pointed out once: where the three results before one are the same as it, it
/// adds to a row that was pointed out already, and nothing is said.
pub proof fn law_a_longer_row_is_not_pointed_out_again(
    log: ObservationLogView,
    call_id: Seq<char>,
    input: ObservationInputView,
    notice: bool,
)
    requires
        input.dispatch_index >= 3,
        holds_only_alike(log, input, input.dispatch_index - 1),
        holds_only_alike(log, input, input.dispatch_index - 2),
        holds_only_alike(log, input, input.dispatch_index - 3),
    ensures
        ({
            let outcome = log.outcome(call_id, input, notice);
            &&& outcome.events.len() == 0
            &&& !outcome.decision.emit_model_notice
            &&& !outcome.decision.standalone_notice
        }),
{
    let place = input.dispatch_index;
    reveal_with_fuel(ObservationLogView::row_before, 4);
    if !input.native_wait_poll {
        lemma_same_is_alike(log, input, place - 1);
        lemma_same_is_alike(log, input, place - 2);
        lemma_same_is_alike(log, input, place - 3);
    }
}

/// Where the two results behind one are the same as it, and it closes the row from the
/// front, it is reported; with its switch on the notice stands by itself.
pub proof fn law_a_row_closed_at_the_front_is_pointed_out(
    log: ObservationLogView,
    call_id: Seq<char>,
    input: ObservationInputView,
    notice: bool,
)
    requires
        !input.native_wait_poll,
        input.dispatch_index < u64::MAX - 1,
        holds_only_alike(log, input, input.dispatch_index + 1),
        holds_only_alike(log, input, input.dispatch_index + 2),
        !holds_alike(log, input, input.dispatch_index + 3),
        !holds_alike(log, input, input.dispatch_index - 1),
    ensures
        ({
            let outcome = log.outcome(call_id, input, notice);
            &&& outcome.events.len() > 0
            &&& outcome.decision.standalone_notice == notice
            &&& !outcome.decision.emit_model_notice
        }),
{
    let place = input.dispatch_index;
    reveal_with_fuel(ObservationLogView::row_before, 4);
    reveal_with_fuel(ObservationLogView::row_after, 4);
    lemma_same_is_alike(log, input, place - 1);
    lemma_same_is_alike(log, input, place + 1);
    lemma_same_is_alike(log, input, place + 2);
    lemma_same_is_alike(log, input, place + 3);
}

/// Waiting is the function `wait` outside any namespace, and nothing else.
pub proof fn law_waiting_is_one_function(
    tool_name: Seq<char>,
    kind: ToolKind,
    namespace: Seq<char>,
)
    ensures
        is_wait_poll("wait"@, ToolKind::Function, seq![]),
        tool_name != "wait"@ ==> !is_wait_poll(tool_name, kind, namespace),
        kind != ToolKind::Function ==> !is_wait_poll(tool_name, kind, namespace),
        namespace.len() > 0 ==> !is_wait_poll(tool_name, kind, namespace),
{
}

} // verus!
