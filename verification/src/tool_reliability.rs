//! The ledger of tool calls: which were admitted, and whose result was delivered.

use crate::digest;
use crate::search;
use crate::telemetry;
use crate::telemetry::{
    EnhancedEvent, EnhancedEventFields, EnhancedEventFieldsView, EnhancedEventKind,
    EnhancedEventView,
};
use crate::text;
use vstd::prelude::*;

verus! {

/// How a tool takes its input.
#[derive(Debug, Clone, Copy, PartialEq, Eq, Structural)]
pub enum ToolKind {
    Function,
    Custom,
    ToolSearch,
}

impl ToolKind {
    /// The word that stands for the kind in a fingerprint.
    pub open spec fn word(self) -> Seq<char> {
        match self {
            ToolKind::Function => "function"@,
            ToolKind::Custom => "custom"@,
            ToolKind::ToolSearch => "tool_search"@,
        }
    }

    /// The word that stands for the kind in a fingerprint.
    pub fn label(self) -> (r: &'static str)
        ensures
            r@ == self.word(),
    {
        match self {
            ToolKind::Function => "function",
            ToolKind::Custom => "custom",
            ToolKind::ToolSearch => "tool_search",
        }
    }
}

/// What `serde_json::from_str::<serde_json::Value>` makes of a text: nothing if
/// it rejects the text, else the value in the form in which
/// `serde_json::Value` displays itself.
pub uninterp spec fn json_form(value: Seq<char>) -> Option<Seq<char>>;

/// Calls `serde_json::from_str` and hands the value back as the text that it
/// displays. Whether the text is accepted, and what the value is, depends on the
/// text alone.
#[verifier::external_body]
fn parse_json(value: &str) -> (r: Option<String>)
    ensures
        r.deep_view() == json_form(value@),
{
    match serde_json::from_str::<serde_json::Value>(value) {
        Ok(parsed) => Some(parsed.to_string()),
        Err(_) => None,
    }
}

/// A character as it is written in a JSON string: quotation mark, backslash and
/// the controls below the space are escaped, everything else stands for itself.
pub open spec fn json_escape(c: char) -> Seq<char> {
    if c == '"' {
        seq!['\\', '"']
    } else if c == '\\' {
        seq!['\\', '\\']
    } else if c == '\u{8}' {
        seq!['\\', 'b']
    } else if c == '\u{9}' {
        seq!['\\', 't']
    } else if c == '\u{a}' {
        seq!['\\', 'n']
    } else if c == '\u{c}' {
        seq!['\\', 'f']
    } else if c == '\u{d}' {
        seq!['\\', 'r']
    } else if c as u32 <= 31 {
        seq![
            '\\',
            'u',
            '0',
            '0',
            digest::hex_char((c as int / 16) as u8),
            digest::hex_char((c as int % 16) as u8),
        ]
    } else {
        seq![c]
    }
}

/// Characters as they are written in a JSON string.
pub open spec fn json_escapes(value: Seq<char>) -> Seq<char>
    decreases value.len(),
{
    if value.len() == 0 {
        seq![]
    } else {
        json_escapes(value.drop_last()) + json_escape(value.last())
    }
}

/// A text as a JSON string.
pub open spec fn json_string(value: Seq<char>) -> Seq<char> {
    seq!['"'] + json_escapes(value) + seq!['"']
}

/// Calls `Display` of a `serde_json::Value::String`, which writes the string
/// between quotation marks, with the escapes of the compact JSON form.
#[verifier::external_body]
fn quote_json(value: &str) -> (r: String)
    ensures
        r@ == json_string(value@),
{
    serde_json::Value::String(value.to_owned()).to_string()
}

/// The arguments of a function call in the form in which they are compared: the
/// JSON value that the text stands for, or the text as a JSON string where it
/// stands for none.
pub open spec fn canonical_arguments(arguments: Seq<char>) -> Seq<char> {
    compared_arguments(json_form(arguments), json_string(arguments))
}

/// The form in which arguments are compared, given the value that they stand for
/// and their text as a JSON string.
pub open spec fn compared_arguments(form: Option<Seq<char>>, literal: Seq<char>) -> Seq<char> {
    match form {
        Some(value) => value,
        None => literal,
    }
}

/// Chooses the form in which arguments are compared.
pub fn choose_arguments(form: Option<String>, literal: String) -> (r: String)
    ensures
        r@ == compared_arguments(form.deep_view(), literal@),
{
    match form {
        Some(value) => value,
        None => literal,
    }
}

/// The arguments of a function call in the form in which they are compared.
pub fn canonical_json(arguments: &str) -> (r: String)
    ensures
        r@ == canonical_arguments(arguments@),
{
    choose_arguments(parse_json(arguments), quote_json(arguments))
}

/// The arguments of a tool search in the form in which they are compared, given
/// the query as a JSON string.
pub open spec fn search_form(literal: Seq<char>) -> Seq<char> {
    "{\"query\":"@ + literal + "}"@
}

/// Puts the query of a tool search, a JSON string, into its object.
pub fn search_object(literal: &str) -> (r: String)
    ensures
        r@ == search_form(literal@),
{
    let mut out = "{\"query\":".to_owned();
    out.append(literal);
    out.append("}");
    assert(out@ =~= search_form(literal@));
    out
}

/// The arguments of a tool search in the form in which they are compared.
pub fn search_arguments(query: &str) -> (r: String)
    ensures
        r@ == search_form(json_string(query@)),
{
    search_object(quote_json(query).as_str())
}

/// A namespace as it is compared.
pub fn canonical_namespace(namespace: &str) -> (r: String)
    ensures
        r@ == text::trimmed(namespace@),
{
    text::trim_text(namespace)
}

/// The text that a fingerprint is taken of.
pub open spec fn fingerprint_text(
    tool_name: Seq<char>,
    kind: ToolKind,
    namespace: Seq<char>,
    payload: Seq<char>,
) -> Seq<char> {
    kind.word() + "\n"@ + namespace + "\n"@ + tool_name + "\n"@ + payload
}

/// The fingerprint of what a call asks for.
pub open spec fn fingerprint(
    tool_name: Seq<char>,
    kind: ToolKind,
    namespace: Seq<char>,
    payload: Seq<char>,
) -> Seq<char> {
    digest::text_digest(fingerprint_text(tool_name, kind, namespace, payload))
}

/// What a call is: its identifier, and what it asks for.
#[derive(Debug, PartialEq, Eq)]
pub struct ProviderToolCallIdentity {
    pub provider_call_id: String,
    pub tool_name: String,
    pub tool_kind: ToolKind,
    pub namespace: String,
    pub argument_fingerprint: String,
}

/// The model of [`ProviderToolCallIdentity`].
#[verifier::ext_equal]
pub struct ProviderToolCallIdentityView {
    pub provider_call_id: Seq<char>,
    pub tool_name: Seq<char>,
    pub tool_kind: ToolKind,
    pub namespace: Seq<char>,
    pub argument_fingerprint: Seq<char>,
}

impl View for ProviderToolCallIdentity {
    type V = ProviderToolCallIdentityView;

    open spec fn view(&self) -> ProviderToolCallIdentityView {
        ProviderToolCallIdentityView {
            provider_call_id: self.provider_call_id@,
            tool_name: self.tool_name@,
            tool_kind: self.tool_kind,
            namespace: self.namespace@,
            argument_fingerprint: self.argument_fingerprint@,
        }
    }
}

impl DeepView for ProviderToolCallIdentity {
    type V = ProviderToolCallIdentityView;

    open spec fn deep_view(&self) -> ProviderToolCallIdentityView {
        self@
    }
}

impl Clone for ProviderToolCallIdentity {
    fn clone(&self) -> (r: Self)
        ensures
            r@ == self@,
    {
        ProviderToolCallIdentity {
            provider_call_id: self.provider_call_id.clone(),
            tool_name: self.tool_name.clone(),
            tool_kind: self.tool_kind,
            namespace: self.namespace.clone(),
            argument_fingerprint: self.argument_fingerprint.clone(),
        }
    }
}

/// What became of a call.
#[derive(Debug, Clone, Copy, PartialEq, Eq, Structural)]
pub enum ToolCallResolution {
    Pending,
    Executed,
    Failed,
    /// A duplicate of the call was answered in place of the call itself.
    SyntheticDuplicate,
}

/// A call in the ledger.
#[derive(Debug, PartialEq, Eq)]
pub struct HandledToolCall {
    pub identity: ProviderToolCallIdentity,
    pub resolution: ToolCallResolution,
    /// The model has seen the result of the call.
    pub original_result_delivered: bool,
    /// The model has seen an answer to a duplicate of the call.
    pub synthetic_duplicate_emitted: bool,
    /// The place of the call in the order in which calls were admitted.
    pub dispatch_index: u64,
}

/// The model of [`HandledToolCall`].
#[verifier::ext_equal]
pub struct HandledToolCallView {
    pub identity: ProviderToolCallIdentityView,
    pub resolution: ToolCallResolution,
    pub original_result_delivered: bool,
    pub synthetic_duplicate_emitted: bool,
    pub dispatch_index: u64,
}

impl View for HandledToolCall {
    type V = HandledToolCallView;

    open spec fn view(&self) -> HandledToolCallView {
        HandledToolCallView {
            identity: self.identity.deep_view(),
            resolution: self.resolution,
            original_result_delivered: self.original_result_delivered,
            synthetic_duplicate_emitted: self.synthetic_duplicate_emitted,
            dispatch_index: self.dispatch_index,
        }
    }
}

impl DeepView for HandledToolCall {
    type V = HandledToolCallView;

    open spec fn deep_view(&self) -> HandledToolCallView {
        self@
    }
}

impl Clone for HandledToolCall {
    fn clone(&self) -> (r: Self)
        ensures
            r@ == self@,
    {
        HandledToolCall {
            identity: self.identity.clone(),
            resolution: self.resolution,
            original_result_delivered: self.original_result_delivered,
            synthetic_duplicate_emitted: self.synthetic_duplicate_emitted,
            dispatch_index: self.dispatch_index,
        }
    }
}

/// Whether a call is executed.
#[derive(Debug, PartialEq, Eq)]
pub enum AdmitDecision {
    Execute,
    SuppressDuplicate { message: String },
    FailClosed { message: String },
}

/// The model of [`AdmitDecision`].
#[verifier::ext_equal]
pub enum AdmitDecisionView {
    Execute,
    SuppressDuplicate { message: Seq<char> },
    FailClosed { message: Seq<char> },
}

impl View for AdmitDecision {
    type V = AdmitDecisionView;

    open spec fn view(&self) -> AdmitDecisionView {
        match self {
            AdmitDecision::Execute => AdmitDecisionView::Execute,
            AdmitDecision::SuppressDuplicate { message } => AdmitDecisionView::SuppressDuplicate {
                message: message@,
            },
            AdmitDecision::FailClosed { message } => AdmitDecisionView::FailClosed {
                message: message@,
            },
        }
    }
}

impl DeepView for AdmitDecision {
    type V = AdmitDecisionView;

    open spec fn deep_view(&self) -> AdmitDecisionView {
        self@
    }
}

impl Clone for AdmitDecision {
    fn clone(&self) -> (r: Self)
        ensures
            r@ == self@,
    {
        match self {
            AdmitDecision::Execute => AdmitDecision::Execute,
            AdmitDecision::SuppressDuplicate { message } => AdmitDecision::SuppressDuplicate {
                message: message.clone(),
            },
            AdmitDecision::FailClosed { message } => AdmitDecision::FailClosed {
                message: message.clone(),
            },
        }
    }
}

/// Whether the result of a call is passed on.
#[derive(Debug, Clone, Copy, PartialEq, Eq, Structural)]
pub enum LateResultDecision {
    Accept,
    Suppress,
}

/// What admitting a call came to.
#[derive(Debug, PartialEq, Eq)]
pub struct ToolReliabilityOutcome {
    pub decision: AdmitDecision,
    pub events: Vec<EnhancedEvent>,
}

/// The model of [`ToolReliabilityOutcome`].
#[verifier::ext_equal]
pub struct ToolReliabilityOutcomeView {
    pub decision: AdmitDecisionView,
    pub events: Seq<EnhancedEventView>,
}

impl View for ToolReliabilityOutcome {
    type V = ToolReliabilityOutcomeView;

    open spec fn view(&self) -> ToolReliabilityOutcomeView {
        ToolReliabilityOutcomeView {
            decision: self.decision.deep_view(),
            events: self.events.deep_view(),
        }
    }
}

impl DeepView for ToolReliabilityOutcome {
    type V = ToolReliabilityOutcomeView;

    open spec fn deep_view(&self) -> ToolReliabilityOutcomeView {
        self@
    }
}

impl Clone for ToolReliabilityOutcome {
    fn clone(&self) -> (r: Self)
        ensures
            r@ == self@,
    {
        ToolReliabilityOutcome {
            decision: self.decision.clone(),
            events: self.events.clone(),
        }
    }
}

/// Why a ledger cannot be restored.
#[derive(Debug, PartialEq, Eq)]
pub enum LedgerError {
    /// Two records bear the same identifier.
    DuplicateCallId(String),
}

/// The calls that were admitted, in the order in which they were.
#[derive(Debug)]
pub struct ToolCallLedger {
    entries: Vec<HandledToolCall>,
}

/// The model of [`ToolCallLedger`].
#[verifier::ext_equal]
pub struct ToolCallLedgerView {
    pub entries: Seq<HandledToolCallView>,
}

impl View for ToolCallLedger {
    type V = ToolCallLedgerView;

    closed spec fn view(&self) -> ToolCallLedgerView {
        ToolCallLedgerView {
            entries: self.entries.deep_view(),
        }
    }
}

impl DeepView for ToolCallLedger {
    type V = ToolCallLedgerView;

    open spec fn deep_view(&self) -> ToolCallLedgerView {
        self@
    }
}

impl Clone for ToolCallLedger {
    fn clone(&self) -> (r: Self)
        ensures
            r@ == self@,
    {
        ToolCallLedger {
            entries: self.entries.clone(),
        }
    }
}

impl HandledToolCallView {
    /// A call that was just admitted.
    pub open spec fn admitted(identity: ProviderToolCallIdentityView, index: u64) -> Self {
        HandledToolCallView {
            identity,
            resolution: ToolCallResolution::Pending,
            original_result_delivered: false,
            synthetic_duplicate_emitted: false,
            dispatch_index: index,
        }
    }

    /// The call once its result was passed on.
    pub open spec fn delivered(self) -> Self {
        HandledToolCallView { original_result_delivered: true, ..self }
    }

    /// The call once it is known what became of it.
    pub open spec fn resolved(self, resolution: ToolCallResolution) -> Self {
        HandledToolCallView {
            resolution,
            synthetic_duplicate_emitted: self.synthetic_duplicate_emitted || resolution
                == ToolCallResolution::SyntheticDuplicate,
            ..self
        }
    }

    /// Whether the model has seen an answer already.
    pub open spec fn answered(self) -> bool {
        self.original_result_delivered || self.synthetic_duplicate_emitted
    }
}

/// What is said of a duplicate.
pub open spec fn duplicate_message(call_id: Seq<char>) -> Seq<char> {
    "Tool call "@ + call_id + " was already handled; the duplicate was not executed."@
}

/// What is said of an identifier that stands for two different calls.
pub open spec fn collision_message(call_id: Seq<char>) -> Seq<char> {
    "Tool call id "@ + call_id + " was reused for a different call; nothing was executed."@
}

/// The details of an event that is about one call.
pub open spec fn call_fields(call_id: Seq<char>) -> EnhancedEventFieldsView {
    EnhancedEventFieldsView {
        call_id_hash: Some(digest::text_digest(call_id)),
        ..EnhancedEventFieldsView::none()
    }
}

impl ToolCallLedgerView {
    /// A ledger without calls.
    pub open spec fn empty() -> Self {
        ToolCallLedgerView { entries: seq![] }
    }

    /// Whether the call at a position bears an identifier.
    pub open spec fn bears(self, call_id: Seq<char>) -> spec_fn(int) -> bool {
        |i: int| self.entries[i].identity.provider_call_id == call_id
    }

    /// The position of a call, or the number of calls where there is none.
    pub open spec fn position(self, call_id: Seq<char>) -> int {
        search::first_below(self.entries.len(), self.bears(call_id))
    }

    /// The call with an identifier.
    pub open spec fn lookup(self, call_id: Seq<char>) -> Option<HandledToolCallView> {
        if self.position(call_id) < self.entries.len() {
            Some(self.entries[self.position(call_id)])
        } else {
            None
        }
    }

    /// Whether a call is executed: it is if its identifier is new. The same call
    /// again is suppressed; another call under the same identifier is an error.
    pub open spec fn decision(self, identity: ProviderToolCallIdentityView) -> AdmitDecisionView {
        match self.lookup(identity.provider_call_id) {
            None => AdmitDecisionView::Execute,
            Some(known) => if known.identity == identity {
                AdmitDecisionView::SuppressDuplicate {
                    message: duplicate_message(identity.provider_call_id),
                }
            } else {
                AdmitDecisionView::FailClosed {
                    message: collision_message(identity.provider_call_id),
                }
            },
        }
    }

    /// The outcome of admitting a call: the decision, and the report of it.
    pub open spec fn outcome(
        self,
        identity: ProviderToolCallIdentityView,
    ) -> ToolReliabilityOutcomeView {
        let fields = call_fields(identity.provider_call_id);
        let decision = self.decision(identity);
        ToolReliabilityOutcomeView {
            decision,
            events: match decision {
                AdmitDecisionView::Execute => seq![
                    telemetry::event(EnhancedEventKind::ToolCallAdmitted, fields),
                ],
                AdmitDecisionView::SuppressDuplicate { message } => seq![
                    telemetry::event(EnhancedEventKind::ToolDuplicateDetected, fields),
                    telemetry::event(EnhancedEventKind::ToolDuplicateSuppressed, fields),
                ],
                AdmitDecisionView::FailClosed { message } => seq![
                    telemetry::event(EnhancedEventKind::ToolCallIdCollision, fields),
                ],
            },
        }
    }

    /// The ledger once a call is admitted.
    pub open spec fn with_call(self, identity: ProviderToolCallIdentityView) -> Self {
        if self.decision(identity) is Execute {
            ToolCallLedgerView {
                entries: self.entries.push(
                    HandledToolCallView::admitted(identity, self.entries.len() as u64),
                ),
            }
        } else {
            self
        }
    }

    /// Whether the result of a call is passed on: once, and not after a duplicate
    /// of the call was answered. The result of an unknown call is passed on.
    pub open spec fn result_decision(self, call_id: Seq<char>) -> LateResultDecision {
        match self.lookup(call_id) {
            Some(known) => if known.answered() {
                LateResultDecision::Suppress
            } else {
                LateResultDecision::Accept
            },
            None => LateResultDecision::Accept,
        }
    }

    /// The ledger with another record at the position of a call, if it knows the
    /// call.
    pub open spec fn with_record(self, call_id: Seq<char>, record: HandledToolCallView) -> Self {
        if self.lookup(call_id) is Some {
            ToolCallLedgerView {
                entries: self.entries.update(self.position(call_id), record),
            }
        } else {
            self
        }
    }

    /// The ledger once the result of a call has come.
    pub open spec fn with_result(self, call_id: Seq<char>) -> Self {
        match self.lookup(call_id) {
            Some(known) => if known.answered() {
                self
            } else {
                self.with_record(call_id, known.delivered())
            },
            None => self,
        }
    }

    /// The ledger once it is known what became of a call.
    pub open spec fn with_resolution(
        self,
        call_id: Seq<char>,
        resolution: ToolCallResolution,
    ) -> Self {
        match self.lookup(call_id) {
            Some(known) => self.with_record(call_id, known.resolved(resolution)),
            None => self,
        }
    }

    /// Whether no two calls bear the same identifier.
    pub open spec fn distinct(self) -> bool {
        forall|i: int, j: int|
            0 <= i < j < self.entries.len()
                ==> #[trigger] self.entries[i].identity.provider_call_id
                != #[trigger] self.entries[j].identity.provider_call_id
    }
}

/// Whether the identifier of a record occurs again after it.
pub open spec fn occurs_again(entries: Seq<HandledToolCallView>, i: int) -> bool {
    exists|j: int|
        i < j < entries.len() && (#[trigger] entries[j]).identity.provider_call_id
            == entries[i].identity.provider_call_id
}

/// Whether an identifier is that of the first record whose identifier occurs
/// again.
pub open spec fn first_repeated(entries: Seq<HandledToolCallView>, call_id: Seq<char>) -> bool {
    exists|i: int|
        0 <= i < entries.len() && #[trigger] occurs_again(entries, i)
            && entries[i].identity.provider_call_id == call_id && (forall|a: int|
            0 <= a < i ==> !#[trigger] occurs_again(entries, a))
}

/// The details of an event that is about one call.
pub fn fields_of_call(call_id: &str) -> (r: EnhancedEventFields)
    ensures
        r@ == call_fields(call_id@),
{
    EnhancedEventFields {
        call_id_hash: Some(telemetry::hash_identifier(call_id)),
        ..EnhancedEventFields::default()
    }
}

/// Three texts in one.
fn joined(a: &str, b: &str, c: &str) -> (r: String)
    ensures
        r@ == a@ + b@ + c@,
{
    let mut out = a.to_owned();
    out.append(b);
    out.append(c);
    assert(out@ =~= a@ + b@ + c@);
    out
}

/// Tells whether two identities are the same.
fn same_identity(a: &ProviderToolCallIdentity, b: &ProviderToolCallIdentity) -> (r: bool)
    ensures
        r == (a@ == b@),
{
    text::same_text(a.provider_call_id.as_str(), b.provider_call_id.as_str()) && text::same_text(
        a.tool_name.as_str(),
        b.tool_name.as_str(),
    ) && a.tool_kind == b.tool_kind && text::same_text(a.namespace.as_str(), b.namespace.as_str())
        && text::same_text(a.argument_fingerprint.as_str(), b.argument_fingerprint.as_str())
}

impl ToolCallLedger {
    /// A ledger without calls.
    pub fn new() -> (r: Self)
        ensures
            r@ == ToolCallLedgerView::empty(),
    {
        let r = ToolCallLedger { entries: Vec::new() };
        assert(r@.entries =~= seq![]);
        r
    }

    /// Tells whether no call was admitted yet.
    pub fn is_empty(&self) -> (r: bool)
        ensures
            r == (self@.entries.len() == 0),
    {
        self.entries.len() == 0
    }

    /// The position of a call, or the number of calls where there is none.
    fn find(&self, call_id: &str) -> (r: usize)
        ensures
            r as int == self@.position(call_id@),
            r <= self@.entries.len(),
    {
        let ghost n = self@.entries.len();
        let ghost bears = self@.bears(call_id@);
        let mut i: usize = 0;
        while i < self.entries.len() && !text::same_text(
            self.entries[i].identity.provider_call_id.as_str(),
            call_id,
        )
            invariant
                i <= self.entries.len(),
                n == self.entries.len(),
                bears == self@.bears(call_id@),
                forall|k: int| 0 <= k < i ==> !#[trigger] bears(k),
            decreases self.entries.len() - i,
        {
            assert(self@.entries[i as int] == self.entries@[i as int]@);
            i = i + 1;
        }
        proof {
            if i < n {
                assert(self@.entries[i as int] == self.entries@[i as int]@);
            }
            search::lemma_first_below_is(n, bears, i as int);
        }
        i
    }

    /// The call with an identifier.
    pub fn get(&self, call_id: &str) -> (r: Option<&HandledToolCall>)
        ensures
            r.deep_view() == self@.lookup(call_id@),
    {
        let i: usize = self.find(call_id);
        if i < self.entries.len() {
            assert(self@.entries[i as int] == self.entries@[i as int]@);
            Some(&self.entries[i])
        } else {
            None
        }
    }

    /// The fingerprint of what a call asks for, its input taken as it stands.
    pub fn fingerprint_raw(tool_name: &str, kind: ToolKind, namespace: &str, input: &str) -> (r:
        String)
        ensures
            r@ == fingerprint(tool_name@, kind, text::trimmed(namespace@), input@),
    {
        let space = canonical_namespace(namespace);
        let mut out = joined(kind.label(), "\n", space.as_str());
        out.append("\n");
        out.append(tool_name);
        out.append("\n");
        out.append(input);
        assert(out@ =~= fingerprint_text(tool_name@, kind, text::trimmed(namespace@), input@));
        digest::text_sha256(out.as_str())
    }

    /// The identity of a call whose input is taken as it stands.
    pub fn identity_raw(
        provider_call_id: &str,
        tool_name: &str,
        kind: ToolKind,
        namespace: &str,
        input: &str,
    ) -> (r: ProviderToolCallIdentity)
        ensures
            r@ == raw_identity(provider_call_id@, tool_name@, kind, namespace@, input@),
    {
        ProviderToolCallIdentity {
            provider_call_id: provider_call_id.to_owned(),
            tool_name: tool_name.to_owned(),
            tool_kind: kind,
            namespace: canonical_namespace(namespace),
            argument_fingerprint: Self::fingerprint_raw(tool_name, kind, namespace, input),
        }
    }

    /// The identity of a call whose arguments are JSON: two texts that stand for
    /// the same value make the same identity.
    pub fn identity_json(
        provider_call_id: &str,
        tool_name: &str,
        kind: ToolKind,
        namespace: &str,
        arguments: &str,
    ) -> (r: ProviderToolCallIdentity)
        ensures
            r@ == raw_identity(
                provider_call_id@,
                tool_name@,
                kind,
                namespace@,
                canonical_arguments(arguments@),
            ),
    {
        let canonical = canonical_json(arguments);
        Self::identity_raw(provider_call_id, tool_name, kind, namespace, canonical.as_str())
    }

    /// The identity of a function call outside any namespace.
    pub fn identity(provider_call_id: &str, tool_name: &str, arguments: &str) -> (r:
        ProviderToolCallIdentity)
        ensures
            r@ == raw_identity(
                provider_call_id@,
                tool_name@,
                ToolKind::Function,
                ""@,
                canonical_arguments(arguments@),
            ),
    {
        Self::identity_json(provider_call_id, tool_name, ToolKind::Function, "", arguments)
    }

    /// Admits a call, and decides whether it is executed.
    pub fn admit_call(&mut self, identity: ProviderToolCallIdentity) -> (r: ToolReliabilityOutcome)
        ensures
            r@ == old(self)@.outcome(identity@),
            final(self)@ == old(self)@.with_call(identity@),
    {
        let ghost start = self@;
        let fields = fields_of_call(identity.provider_call_id.as_str());
        let mut events: Vec<EnhancedEvent> = Vec::new();
        let i: usize = self.find(identity.provider_call_id.as_str());
        if i >= self.entries.len() {
            let index: u64 = self.entries.len() as u64;
            let record = HandledToolCall {
                identity,
                resolution: ToolCallResolution::Pending,
                original_result_delivered: false,
                synthetic_duplicate_emitted: false,
                dispatch_index: index,
            };
            self.entries.push(record);
            assert(self@.entries =~= start.entries.push(record@));
            events.push(EnhancedEvent::new(EnhancedEventKind::ToolCallAdmitted, fields));
            assert(events.deep_view() =~= start.outcome(identity@).events);
            return ToolReliabilityOutcome { decision: AdmitDecision::Execute, events };
        }
        assert(start.entries[i as int] == self.entries@[i as int]@);
        if same_identity(&self.entries[i].identity, &identity) {
            events.push(
                EnhancedEvent::new(EnhancedEventKind::ToolDuplicateDetected, fields.clone()),
            );
            events.push(EnhancedEvent::new(EnhancedEventKind::ToolDuplicateSuppressed, fields));
            assert(events.deep_view() =~= start.outcome(identity@).events);
            let message = joined(
                "Tool call ",
                identity.provider_call_id.as_str(),
                " was already handled; the duplicate was not executed.",
            );
            return ToolReliabilityOutcome {
                decision: AdmitDecision::SuppressDuplicate { message },
                events,
            };
        }
        events.push(EnhancedEvent::new(EnhancedEventKind::ToolCallIdCollision, fields));
        assert(events.deep_view() =~= start.outcome(identity@).events);
        let message = joined(
            "Tool call id ",
            identity.provider_call_id.as_str(),
            " was reused for a different call; nothing was executed.",
        );
        ToolReliabilityOutcome { decision: AdmitDecision::FailClosed { message }, events }
    }

    /// Decides whether the result of a call is passed on, and notes that it was.
    pub fn complete_original(&mut self, provider_call_id: &str) -> (r: LateResultDecision)
        ensures
            r == old(self)@.result_decision(provider_call_id@),
            final(self)@ == old(self)@.with_result(provider_call_id@),
    {
        let ghost start = self@;
        let i: usize = self.find(provider_call_id);
        if i >= self.entries.len() {
            return LateResultDecision::Accept;
        }
        assert(start.entries[i as int] == self.entries@[i as int]@);
        let known = &self.entries[i];
        if known.original_result_delivered || known.synthetic_duplicate_emitted {
            return LateResultDecision::Suppress;
        }
        let mut record = self.entries[i].clone();
        record.original_result_delivered = true;
        self.entries.set(i, record);
        assert(self@.entries =~= start.entries.update(i as int, record@));
        LateResultDecision::Accept
    }

    /// Decides whether a result that came late is passed on.
    pub fn ingest_late_result(&self, provider_call_id: &str) -> (r: LateResultDecision)
        ensures
            r == self@.result_decision(provider_call_id@),
    {
        match self.get(provider_call_id) {
            Some(known) => if known.original_result_delivered
                || known.synthetic_duplicate_emitted {
                LateResultDecision::Suppress
            } else {
                LateResultDecision::Accept
            },
            None => LateResultDecision::Accept,
        }
    }

    /// Notes what became of a call.
    pub fn mark_resolution(&mut self, provider_call_id: &str, resolution: ToolCallResolution)
        ensures
            final(self)@ == old(self)@.with_resolution(provider_call_id@, resolution),
    {
        let ghost start = self@;
        let i: usize = self.find(provider_call_id);
        if i >= self.entries.len() {
            return;
        }
        assert(start.entries[i as int] == self.entries@[i as int]@);
        let mut record = self.entries[i].clone();
        record.resolution = resolution;
        if resolution == ToolCallResolution::SyntheticDuplicate {
            record.synthetic_duplicate_emitted = true;
        }
        self.entries.set(i, record);
        assert(self@.entries =~= start.entries.update(i as int, record@));
    }

    /// Restores a ledger from its records. No two of them may bear the same
    /// identifier; the error names the first that occurs again.
    pub fn from_durable(records: Vec<HandledToolCall>) -> (r: Result<Self, LedgerError>)
        ensures
            r is Ok <==> (ToolCallLedgerView { entries: records.deep_view() }).distinct(),
            r matches Ok(ledger) ==> ledger@.entries == records.deep_view(),
            r matches Err(LedgerError::DuplicateCallId(id)) ==> first_repeated(
                records.deep_view(),
                id@,
            ),
    {
        let ledger = ToolCallLedger { entries: records };
        let mut i: usize = 0;
        while i < ledger.entries.len()
            invariant
                i <= ledger.entries.len(),
                ledger@.entries == records.deep_view(),
                ledger.entries == records,
                forall|a: int, b: int|
                    0 <= a < b < ledger@.entries.len() && a < i
                        ==> #[trigger] ledger@.entries[a].identity.provider_call_id
                        != #[trigger] ledger@.entries[b].identity.provider_call_id,
            decreases ledger.entries.len() - i,
        {
            let id = &ledger.entries[i].identity.provider_call_id;
            assert(ledger@.entries[i as int] == ledger.entries@[i as int]@);
            let mut j: usize = i + 1;
            while j < ledger.entries.len()
                invariant
                    i < j <= ledger.entries.len(),
                    id@ == ledger@.entries[i as int].identity.provider_call_id,
                    ledger@.entries == records.deep_view(),
                    ledger.entries == records,
                    forall|a: int, b: int|
                        0 <= a < b < ledger@.entries.len() && a < i
                            ==> #[trigger] ledger@.entries[a].identity.provider_call_id
                            != #[trigger] ledger@.entries[b].identity.provider_call_id,
                    forall|b: int|
                        i < b < j ==> id@
                            != #[trigger] ledger@.entries[b].identity.provider_call_id,
                decreases ledger.entries.len() - j,
            {
                assert(ledger@.entries[j as int] == ledger.entries@[j as int]@);
                if text::same_text(
                    id.as_str(),
                    ledger.entries[j].identity.provider_call_id.as_str(),
                ) {
                    let found = id.clone();
                    proof {
                        let all = records.deep_view();
                        assert(all[j as int].identity.provider_call_id == found@);
                        assert(occurs_again(all, i as int));
                        assert forall|a: int| 0 <= a < i implies !#[trigger] occurs_again(
                            all,
                            a,
                        ) by {}
                        assert(all[i as int].identity.provider_call_id == found@);
                    }
                    return Err(LedgerError::DuplicateCallId(found));
                }
                j = j + 1;
            }
            i = i + 1;
        }
        Ok(ledger)
    }
}

/// The identity of a call whose input has been brought into its final form.
pub open spec fn raw_identity(
    provider_call_id: Seq<char>,
    tool_name: Seq<char>,
    kind: ToolKind,
    namespace: Seq<char>,
    input: Seq<char>,
) -> ProviderToolCallIdentityView {
    ProviderToolCallIdentityView {
        provider_call_id,
        tool_name,
        tool_kind: kind,
        namespace: text::trimmed(namespace),
        argument_fingerprint: fingerprint(tool_name, kind, text::trimmed(namespace), input),
    }
}

/// What can happen to a ledger.
pub enum LedgerStep {
    /// A call comes in.
    Call { identity: ProviderToolCallIdentityView },
    /// The result of a call comes in.
    Result { call_id: Seq<char> },
    /// It is noted what became of a call.
    Resolution { call_id: Seq<char>, resolution: ToolCallResolution },
}

/// The ledger after one step.
pub open spec fn step_ledger(ledger: ToolCallLedgerView, step: LedgerStep) -> ToolCallLedgerView {
    match step {
        LedgerStep::Call { identity } => ledger.with_call(identity),
        LedgerStep::Result { call_id } => ledger.with_result(call_id),
        LedgerStep::Resolution { call_id, resolution } => ledger.with_resolution(
            call_id,
            resolution,
        ),
    }
}

/// Whether a step executes the call with an identifier.
pub open spec fn step_executes(
    ledger: ToolCallLedgerView,
    step: LedgerStep,
    call_id: Seq<char>,
) -> bool {
    match step {
        LedgerStep::Call { identity } => identity.provider_call_id == call_id && ledger.decision(
            identity,
        ) is Execute,
        _ => false,
    }
}

/// Whether a step passes the result of a call on.
pub open spec fn step_delivers(
    ledger: ToolCallLedgerView,
    step: LedgerStep,
    call_id: Seq<char>,
) -> bool {
    match step {
        LedgerStep::Result { call_id: id } => id == call_id && ledger.result_decision(id)
            == LateResultDecision::Accept,
        _ => false,
    }
}

/// The ledger after all steps.
pub open spec fn run_ledger(
    ledger: ToolCallLedgerView,
    steps: Seq<LedgerStep>,
) -> ToolCallLedgerView
    decreases steps.len(),
{
    if steps.len() == 0 {
        ledger
    } else {
        step_ledger(run_ledger(ledger, steps.drop_last()), steps.last())
    }
}

/// How often the call with an identifier is executed in the course of the steps.
pub open spec fn executions(
    ledger: ToolCallLedgerView,
    steps: Seq<LedgerStep>,
    call_id: Seq<char>,
) -> nat
    decreases steps.len(),
{
    if steps.len() == 0 {
        0
    } else {
        executions(ledger, steps.drop_last(), call_id) + (if step_executes(
            run_ledger(ledger, steps.drop_last()),
            steps.last(),
            call_id,
        ) {
            1nat
        } else {
            0nat
        })
    }
}

/// How often the result of a call is passed on in the course of the steps.
pub open spec fn deliveries(
    ledger: ToolCallLedgerView,
    steps: Seq<LedgerStep>,
    call_id: Seq<char>,
) -> nat
    decreases steps.len(),
{
    if steps.len() == 0 {
        0
    } else {
        deliveries(ledger, steps.drop_last(), call_id) + (if step_delivers(
            run_ledger(ledger, steps.drop_last()),
            steps.last(),
            call_id,
        ) {
            1nat
        } else {
            0nat
        })
    }
}

proof fn lemma_lookup_after_push(
    ledger: ToolCallLedgerView,
    record: HandledToolCallView,
    call_id: Seq<char>,
)
    ensures
        ({
            let after = ToolCallLedgerView { entries: ledger.entries.push(record) };
            after.lookup(call_id) == (if ledger.lookup(call_id) is Some {
                ledger.lookup(call_id)
            } else if record.identity.provider_call_id == call_id {
                Some(record)
            } else {
                None
            })
        }),
{
    let n = ledger.entries.len();
    let after = ToolCallLedgerView { entries: ledger.entries.push(record) };
    let p = ledger.bears(call_id);
    let q = after.bears(call_id);
    search::lemma_first_below(n, p);
    let k = search::first_below(n, p);
    assert forall|i: int| 0 <= i < k implies !#[trigger] q(i) by {
        assert(!p(i));
    }
    if k < n {
        search::lemma_first_below_is(n + 1, q, k);
    } else if q(n as int) {
        search::lemma_first_below_is(n + 1, q, n as int);
    } else {
        assert forall|i: int| 0 <= i < n + 1 implies !#[trigger] q(i) by {
            if i < n {
                assert(!p(i));
            }
        }
        search::lemma_first_below_is(n + 1, q, (n + 1) as int);
    }
}

proof fn lemma_lookup_after_update(
    ledger: ToolCallLedgerView,
    changed: Seq<char>,
    record: HandledToolCallView,
    call_id: Seq<char>,
)
    requires
        ledger.lookup(changed) is Some,
        record.identity.provider_call_id == changed,
    ensures
        ledger.with_record(changed, record).lookup(call_id) == (if call_id == changed {
            Some(record)
        } else {
            ledger.lookup(call_id)
        }),
{
    let n = ledger.entries.len();
    let after = ledger.with_record(changed, record);
    let at = ledger.position(changed);
    search::lemma_first_below(n, ledger.bears(changed));
    assert(ledger.bears(changed)(at));
    let p = ledger.bears(call_id);
    let q = after.bears(call_id);
    search::lemma_first_below(n, p);
    let k = search::first_below(n, p);
    assert forall|i: int| 0 <= i < n implies #[trigger] q(i) == p(i) by {
        if i == at {
            assert(after.entries[i] == record);
        }
    }
    assert forall|i: int| 0 <= i < k implies !#[trigger] q(i) by {
        assert(!p(i));
    }
    search::lemma_first_below_is(n, q, k);
}

/// One step never forgets a call, never changes what it is, and never takes back
/// that its result was passed on or that a duplicate of it was answered.
pub proof fn law_ledger_remembers(
    ledger: ToolCallLedgerView,
    step: LedgerStep,
    call_id: Seq<char>,
)
    ensures
        ledger.lookup(call_id) matches Some(known) ==> {
            &&& step_ledger(ledger, step).lookup(call_id) matches Some(later)
            &&& later.identity == known.identity
            &&& later.dispatch_index == known.dispatch_index
            &&& known.original_result_delivered ==> later.original_result_delivered
            &&& known.synthetic_duplicate_emitted ==> later.synthetic_duplicate_emitted
        },
{
    match step {
        LedgerStep::Call { identity } => {
            lemma_lookup_after_push(
                ledger,
                HandledToolCallView::admitted(identity, ledger.entries.len() as u64),
                call_id,
            );
        },
        LedgerStep::Result { call_id: id } => {
            lemma_lookup_id(ledger, id);
            if let Some(known) = ledger.lookup(id) {
                lemma_lookup_after_update(ledger, id, known.delivered(), call_id);
            }
        },
        LedgerStep::Resolution { call_id: id, resolution } => {
            lemma_lookup_id(ledger, id);
            if let Some(known) = ledger.lookup(id) {
                lemma_lookup_after_update(ledger, id, known.resolved(resolution), call_id);
            }
        },
    }
}

/// The call that a step is about.
pub open spec fn concerned_call(step: LedgerStep) -> Seq<char> {
    match step {
        LedgerStep::Call { identity } => identity.provider_call_id,
        LedgerStep::Result { call_id } => call_id,
        LedgerStep::Resolution { call_id, .. } => call_id,
    }
}

/// One step changes nothing about any call but its own.
pub proof fn law_one_call_at_a_time(
    ledger: ToolCallLedgerView,
    step: LedgerStep,
    call_id: Seq<char>,
)
    requires
        concerned_call(step) != call_id,
    ensures
        step_ledger(ledger, step).lookup(call_id) == ledger.lookup(call_id),
{
    match step {
        LedgerStep::Call { identity } => {
            lemma_lookup_after_push(
                ledger,
                HandledToolCallView::admitted(identity, ledger.entries.len() as u64),
                call_id,
            );
        },
        LedgerStep::Result { call_id: id } => {
            lemma_lookup_id(ledger, id);
            if let Some(known) = ledger.lookup(id) {
                lemma_lookup_after_update(ledger, id, known.delivered(), call_id);
            }
        },
        LedgerStep::Resolution { call_id: id, resolution } => {
            lemma_lookup_id(ledger, id);
            if let Some(known) = ledger.lookup(id) {
                lemma_lookup_after_update(ledger, id, known.resolved(resolution), call_id);
            }
        },
    }
}

proof fn lemma_lookup_id(ledger: ToolCallLedgerView, call_id: Seq<char>)
    ensures
        ledger.lookup(call_id) matches Some(known) ==> known.identity.provider_call_id == call_id,
{
    search::lemma_first_below(ledger.entries.len(), ledger.bears(call_id));
}

/// A call that was admitted is found again.
pub proof fn law_call_is_found(
    ledger: ToolCallLedgerView,
    identity: ProviderToolCallIdentityView,
)
    ensures
        ledger.with_call(identity).lookup(identity.provider_call_id) is Some,
{
    lemma_lookup_after_push(
        ledger,
        HandledToolCallView::admitted(identity, ledger.entries.len() as u64),
        identity.provider_call_id,
    );
}

/// A result that is passed on is noted with its call, and nothing else about the
/// call changes.
pub proof fn law_result_is_found(ledger: ToolCallLedgerView, call_id: Seq<char>)
    requires
        ledger.lookup(call_id) is Some,
    ensures
        ledger.with_result(call_id).lookup(call_id) == Some(
            if ledger.lookup(call_id)->0.answered() {
                ledger.lookup(call_id)->0
            } else {
                ledger.lookup(call_id)->0.delivered()
            },
        ),
{
    lemma_lookup_id(ledger, call_id);
    lemma_lookup_after_update(
        ledger,
        call_id,
        ledger.lookup(call_id)->0.delivered(),
        call_id,
    );
}

/// What is noted of a call is found again, and nothing else about it changes.
pub proof fn law_resolution_is_found(
    ledger: ToolCallLedgerView,
    call_id: Seq<char>,
    resolution: ToolCallResolution,
)
    requires
        ledger.lookup(call_id) is Some,
    ensures
        ledger.with_resolution(call_id, resolution).lookup(call_id) == Some(
            ledger.lookup(call_id)->0.resolved(resolution),
        ),
{
    lemma_lookup_id(ledger, call_id);
    lemma_lookup_after_update(
        ledger,
        call_id,
        ledger.lookup(call_id)->0.resolved(resolution),
        call_id,
    );
}

/// Every step keeps the identifiers distinct.
pub proof fn law_ledger_stays_distinct(ledger: ToolCallLedgerView, step: LedgerStep)
    requires
        ledger.distinct(),
    ensures
        step_ledger(ledger, step).distinct(),
        ToolCallLedgerView::empty().distinct(),
{
    let n = ledger.entries.len();
    let after = step_ledger(ledger, step);
    match step {
        LedgerStep::Call { identity } => {
            let p = ledger.bears(identity.provider_call_id);
            search::lemma_first_below(n, p);
            assert forall|i: int, j: int| 0 <= i < j < after.entries.len() implies #[trigger]
                after.entries[i].identity.provider_call_id
                    != #[trigger] after.entries[j].identity.provider_call_id by {
                if j == n {
                    assert(!p(i));
                } else {
                    assert(ledger.entries[i].identity.provider_call_id
                        != ledger.entries[j].identity.provider_call_id);
                }
            }
        },
        LedgerStep::Result { call_id } => {
            search::lemma_first_below(n, ledger.bears(call_id));
            assert forall|i: int| 0 <= i < n implies #[trigger] after.entries[i].identity
                == ledger.entries[i].identity by {}
        },
        LedgerStep::Resolution { call_id, resolution } => {
            search::lemma_first_below(n, ledger.bears(call_id));
            assert forall|i: int| 0 <= i < n implies #[trigger] after.entries[i].identity
                == ledger.entries[i].identity by {}
        },
    }
}

/// Whatever comes in, and however often, a call is executed at most once, and not
/// at all if the ledger knows it from the start.
pub proof fn law_call_is_executed_once(
    ledger: ToolCallLedgerView,
    steps: Seq<LedgerStep>,
    call_id: Seq<char>,
)
    ensures
        executions(ledger, steps, call_id) <= 1,
        ledger.lookup(call_id) is Some ==> executions(ledger, steps, call_id) == 0,
        executions(ledger, steps, call_id) == 1 || ledger.lookup(call_id) is Some ==> run_ledger(
            ledger,
            steps,
        ).lookup(call_id) is Some,
    decreases steps.len(),
{
    if steps.len() > 0 {
        law_call_is_executed_once(ledger, steps.drop_last(), call_id);
        let before = run_ledger(ledger, steps.drop_last());
        law_ledger_remembers(before, steps.last(), call_id);
        if let LedgerStep::Call { identity } = steps.last() {
            lemma_lookup_after_push(
                before,
                HandledToolCallView::admitted(identity, before.entries.len() as u64),
                call_id,
            );
        }
    }
}

/// The result of a known call is passed on at most once, and never once the model
/// has seen an answer.
pub proof fn law_result_is_delivered_once(
    ledger: ToolCallLedgerView,
    steps: Seq<LedgerStep>,
    call_id: Seq<char>,
)
    requires
        ledger.lookup(call_id) is Some,
    ensures
        deliveries(ledger, steps, call_id) <= 1,
        ledger.lookup(call_id)->0.answered() ==> deliveries(ledger, steps, call_id) == 0,
        run_ledger(ledger, steps).lookup(call_id) is Some,
        deliveries(ledger, steps, call_id) == 1 || ledger.lookup(call_id)->0.answered()
            ==> run_ledger(ledger, steps).lookup(call_id)->0.answered(),
    decreases steps.len(),
{
    if steps.len() > 0 {
        law_result_is_delivered_once(ledger, steps.drop_last(), call_id);
        let before = run_ledger(ledger, steps.drop_last());
        law_ledger_remembers(before, steps.last(), call_id);
        if let LedgerStep::Result { call_id: id } = steps.last() {
            lemma_lookup_id(before, id);
            if let Some(known) = before.lookup(id) {
                lemma_lookup_after_update(before, id, known.delivered(), call_id);
            }
        }
    }
}

/// Function calls are told apart by the values of their arguments, not by the
/// texts: two texts for one value make one identity.
pub proof fn law_equal_values_make_one_identity(
    call_id: Seq<char>,
    tool_name: Seq<char>,
    namespace: Seq<char>,
    a: Seq<char>,
    b: Seq<char>,
)
    requires
        json_form(a) is Some,
        json_form(a) == json_form(b),
    ensures
        raw_identity(call_id, tool_name, ToolKind::Function, namespace, canonical_arguments(a))
            == raw_identity(
            call_id,
            tool_name,
            ToolKind::Function,
            namespace,
            canonical_arguments(b),
        ),
{
}

/// A call is known by its identifier: what is found under it was admitted under it,
/// and where nothing is found, no call bears it.
pub proof fn law_calls_are_known_by_identifier(ledger: ToolCallLedgerView, call_id: Seq<char>)
    ensures
        ledger.lookup(call_id) matches Some(known) ==> ledger.entries.contains(known)
            && known.identity.provider_call_id == call_id,
        ledger.lookup(call_id) is None ==> forall|k: int|
            0 <= k < ledger.entries.len() ==> (
            #[trigger] ledger.entries[k]).identity.provider_call_id != call_id,
        ledger.distinct() ==> forall|k: int|
            0 <= k < ledger.entries.len() && (
            #[trigger] ledger.entries[k]).identity.provider_call_id == call_id ==> ledger.lookup(
                call_id,
            ) == Some(ledger.entries[k]),
{
    let p = ledger.bears(call_id);
    let n = ledger.entries.len();
    search::lemma_first_below(n, p);
    let at = ledger.position(call_id);
    if at < n {
        assert(p(at));
    }
    assert forall|k: int| 0 <= k < n && (
    #[trigger] ledger.entries[k]).identity.provider_call_id == call_id implies p(k) && at < n by {
        assert(p(k));
    }
    if ledger.distinct() {
        assert forall|k: int| 0 <= k < n && (
        #[trigger] ledger.entries[k]).identity.provider_call_id == call_id implies ledger.lookup(
            call_id,
        ) == Some(ledger.entries[k]) by {
            assert(p(k));
            if at < k {
                assert(ledger.entries[at].identity.provider_call_id
                    != ledger.entries[k].identity.provider_call_id);
            }
        }
    }
}

/// A call under a new identifier is executed and written down as pending, behind the
/// others, with nothing shown of it yet. One that is known in all respects is a
/// duplicate; one that shares the identifier and differs in anything else fails. Neither
/// changes the ledger.
pub proof fn law_calls_are_admitted_by_identity(
    ledger: ToolCallLedgerView,
    identity: ProviderToolCallIdentityView,
)
    ensures
        ({
            let known = ledger.lookup(identity.provider_call_id);
            let outcome = ledger.outcome(identity);
            let after = ledger.with_call(identity);
            &&& known is None ==> {
                &&& outcome.decision is Execute
                &&& after.entries.len() == ledger.entries.len() + 1
                &&& after.entries.drop_last() == ledger.entries
                &&& after.entries.last().identity == identity
                &&& after.entries.last().resolution == ToolCallResolution::Pending
                &&& !after.entries.last().original_result_delivered
                &&& !after.entries.last().synthetic_duplicate_emitted
                &&& after.entries.last().dispatch_index == ledger.entries.len() as u64
                &&& outcome.events.len() == 1
                &&& outcome.events[0].kind == EnhancedEventKind::ToolCallAdmitted
            }
            &&& known matches Some(entry) ==> {
                &&& after == ledger
                &&& entry.identity.tool_name == identity.tool_name && entry.identity.tool_kind
                    == identity.tool_kind && entry.identity.namespace == identity.namespace
                    && entry.identity.argument_fingerprint == identity.argument_fingerprint
                    <==> outcome.decision is SuppressDuplicate
                &&& outcome.decision is SuppressDuplicate || outcome.decision is FailClosed
                &&& outcome.decision is SuppressDuplicate ==> outcome.events.len() == 2
                    && outcome.events[0].kind == EnhancedEventKind::ToolDuplicateDetected
                    && outcome.events[1].kind == EnhancedEventKind::ToolDuplicateSuppressed
                &&& outcome.decision is FailClosed ==> outcome.events.len() == 1
                    && outcome.events[0].kind == EnhancedEventKind::ToolCallIdCollision
            }
            &&& forall|k: int|
                0 <= k < outcome.events.len() ==> (
                #[trigger] outcome.events[k]).fields.call_id_hash == Some(
                    digest::text_digest(identity.provider_call_id),
                )
        }),
{
    lemma_lookup_id(ledger, identity.provider_call_id);
    if ledger.lookup(identity.provider_call_id) is None {
        assert(ledger.with_call(identity).entries.drop_last() =~= ledger.entries);
    }
}

/// The result of a call is taken as long as the model has seen neither it nor an answer
/// to a duplicate; it is then written down as seen, and nothing else changes. A result
/// of a call that is not known is taken and changes nothing.
pub proof fn law_results_are_taken_once(ledger: ToolCallLedgerView, call_id: Seq<char>)
    ensures
        ({
            let after = ledger.with_result(call_id);
            &&& ledger.lookup(call_id) is None ==> ledger.result_decision(call_id)
                == LateResultDecision::Accept && after == ledger
            &&& ledger.lookup(call_id) matches Some(known) ==> {
                let seen = known.original_result_delivered || known.synthetic_duplicate_emitted;
                &&& seen ==> ledger.result_decision(call_id) == LateResultDecision::Suppress
                    && after == ledger
                &&& !seen ==> ledger.result_decision(call_id) == LateResultDecision::Accept
                    && after.lookup(call_id) == Some(
                    HandledToolCallView {
                        identity: known.identity,
                        resolution: known.resolution,
                        original_result_delivered: true,
                        synthetic_duplicate_emitted: false,
                        dispatch_index: known.dispatch_index,
                    },
                )
            }
            &&& after.entries.len() == ledger.entries.len()
        }),
{
    search::lemma_first_below(ledger.entries.len(), ledger.bears(call_id));
    if ledger.lookup(call_id) is Some {
        law_result_is_found(ledger, call_id);
    }
}

/// What became of a known call is written down with it; that a duplicate of it was
/// answered is never forgotten again. A call that is not known leaves the ledger alone.
pub proof fn law_what_became_of_a_call_is_written_down(
    ledger: ToolCallLedgerView,
    call_id: Seq<char>,
    resolution: ToolCallResolution,
)
    ensures
        ({
            let after = ledger.with_resolution(call_id, resolution);
            &&& ledger.lookup(call_id) is None ==> after == ledger
            &&& ledger.lookup(call_id) matches Some(known) ==> after.lookup(call_id) == Some(
                HandledToolCallView {
                    identity: known.identity,
                    resolution,
                    original_result_delivered: known.original_result_delivered,
                    synthetic_duplicate_emitted: known.synthetic_duplicate_emitted || resolution
                        == ToolCallResolution::SyntheticDuplicate,
                    dispatch_index: known.dispatch_index,
                },
            )
            &&& after.entries.len() == ledger.entries.len()
        }),
{
    search::lemma_first_below(ledger.entries.len(), ledger.bears(call_id));
    if ledger.lookup(call_id) is Some {
        law_resolution_is_found(ledger, call_id, resolution);
    }
}

/// What a call asks for goes into its fingerprint whole: the kind of its tool, the
/// namespace without white space around it, the name and the payload, in this order,
/// each on a line of its own.
pub proof fn law_identity_covers_the_whole_call(
    call_id: Seq<char>,
    tool_name: Seq<char>,
    namespace: Seq<char>,
    payload: Seq<char>,
)
    ensures
        ({
            let bare = text::trimmed(namespace);
            let rest = seq!['\n'] + bare + seq!['\n'] + tool_name + seq!['\n'] + payload;
            let function = raw_identity(
                call_id,
                tool_name,
                ToolKind::Function,
                namespace,
                payload,
            );
            let custom = raw_identity(call_id, tool_name, ToolKind::Custom, namespace, payload);
            let search = raw_identity(
                call_id,
                tool_name,
                ToolKind::ToolSearch,
                namespace,
                payload,
            );
            &&& function.provider_call_id == call_id && custom.provider_call_id == call_id
                && search.provider_call_id == call_id
            &&& function.tool_name == tool_name && custom.tool_name == tool_name
                && search.tool_name == tool_name
            &&& function.namespace == bare && custom.namespace == bare && search.namespace == bare
            &&& function.tool_kind == ToolKind::Function && custom.tool_kind == ToolKind::Custom
                && search.tool_kind == ToolKind::ToolSearch
            &&& function.argument_fingerprint == digest::text_digest("function"@ + rest)
            &&& custom.argument_fingerprint == digest::text_digest("custom"@ + rest)
            &&& search.argument_fingerprint == digest::text_digest("tool_search"@ + rest)
        }),
{
    reveal_strlit("\n");
    assert("\n"@ =~= seq!['\n']);
    let bare = text::trimmed(namespace);
    let rest = seq!['\n'] + bare + seq!['\n'] + tool_name + seq!['\n'] + payload;
    assert(fingerprint_text(tool_name, ToolKind::Function, bare, payload) =~= "function"@ + rest);
    assert(fingerprint_text(tool_name, ToolKind::Custom, bare, payload) =~= "custom"@ + rest);
    assert(fingerprint_text(tool_name, ToolKind::ToolSearch, bare, payload) =~= "tool_search"@
        + rest);
}

/// Arguments that are JSON count by their value; those that are not count as a JSON
/// string, quoted.
pub proof fn law_arguments_count_by_their_value(arguments: Seq<char>)
    ensures
        json_form(arguments) matches Some(value) ==> canonical_arguments(arguments) == value,
        json_form(arguments) is None ==> canonical_arguments(arguments) == json_string(arguments),
        json_string(arguments).len() >= 2,
        json_string(arguments)[0] == '"',
        json_string(arguments).last() == '"',
{
}

/// What is said of a duplicate or a collision names the call that it is about.
pub proof fn law_messages_name_their_call(
    ledger: ToolCallLedgerView,
    identity: ProviderToolCallIdentityView,
)
    ensures
        ledger.decision(identity) matches AdmitDecisionView::SuppressDuplicate { message }
            ==> text::holds_text(message, identity.provider_call_id),
        ledger.decision(identity) matches AdmitDecisionView::FailClosed { message }
            ==> text::holds_text(message, identity.provider_call_id),
{
    text::law_parts_are_held(
        "Tool call "@,
        identity.provider_call_id,
        " was already handled; the duplicate was not executed."@,
    );
    text::law_parts_are_held(
        "Tool call id "@,
        identity.provider_call_id,
        " was reused for a different call; nothing was executed."@,
    );
}

} // verus!
