//! Events that describe what the runtime did.
//!
//! The namespace is `enhanced.*`. Events are for comparison, debugging and
//! regression; nothing is ever controlled through them.

use crate::config::AblationProfile;
use crate::digest;
use crate::text;
use vstd::prelude::*;

verus! {

/// What an event is about.
#[derive(Debug, Clone, Copy, PartialEq, Eq, Structural, Hash)]
pub enum EnhancedEventKind {
    ToolCallAdmitted,
    ToolCallCompleted,
    ToolDuplicateDetected,
    ToolDuplicateSuppressed,
    ToolCallIdCollision,
    ToolRepetitionObserved,
    ToolRepetitionNoticeAppended,
    ContextPruneStarted,
    ContextPruneCompleted,
    ContextCompactionAvoided,
    ContextOverflowRetry,
    ContextOverflowRetryRefused,
    ContextProjectionApplied,
    ContextProjectionRestored,
    ContextProjectionCleared,
    ContinuationAllowed,
    ContinuationExhausted,
    SessionFeaturesApplied,
}

impl EnhancedEventKind {
    /// The name under which events of this kind are reported.
    pub open spec fn event_name(self) -> Seq<char> {
        match self {
            EnhancedEventKind::ToolCallAdmitted => "enhanced.tool.call_admitted"@,
            EnhancedEventKind::ToolCallCompleted => "enhanced.tool.call_completed"@,
            EnhancedEventKind::ToolDuplicateDetected => "enhanced.tool.duplicate_detected"@,
            EnhancedEventKind::ToolDuplicateSuppressed => "enhanced.tool.duplicate_suppressed"@,
            EnhancedEventKind::ToolCallIdCollision => "enhanced.tool.call_id_collision"@,
            EnhancedEventKind::ToolRepetitionObserved => "enhanced.tool.repetition_observed"@,
            EnhancedEventKind::ToolRepetitionNoticeAppended => {
                "enhanced.tool.repetition_notice_appended"@
            },
            EnhancedEventKind::ContextPruneStarted => "enhanced.context.prune_started"@,
            EnhancedEventKind::ContextPruneCompleted => "enhanced.context.prune_completed"@,
            EnhancedEventKind::ContextCompactionAvoided => "enhanced.context.compaction_avoided"@,
            EnhancedEventKind::ContextOverflowRetry => "enhanced.context.overflow_retry"@,
            EnhancedEventKind::ContextOverflowRetryRefused => {
                "enhanced.context.overflow_retry_refused"@
            },
            EnhancedEventKind::ContextProjectionApplied => "enhanced.context.projection_applied"@,
            EnhancedEventKind::ContextProjectionRestored => "enhanced.context.projection_restored"@,
            EnhancedEventKind::ContextProjectionCleared => "enhanced.context.projection_cleared"@,
            EnhancedEventKind::ContinuationAllowed => "enhanced.continuation.allowed"@,
            EnhancedEventKind::ContinuationExhausted => "enhanced.continuation.exhausted"@,
            EnhancedEventKind::SessionFeaturesApplied => "enhanced.session.features_applied"@,
        }
    }

    /// The name under which events of this kind are reported.
    pub fn name(self) -> (r: &'static str)
        ensures
            r@ == self.event_name(),
    {
        match self {
            EnhancedEventKind::ToolCallAdmitted => "enhanced.tool.call_admitted",
            EnhancedEventKind::ToolCallCompleted => "enhanced.tool.call_completed",
            EnhancedEventKind::ToolDuplicateDetected => "enhanced.tool.duplicate_detected",
            EnhancedEventKind::ToolDuplicateSuppressed => "enhanced.tool.duplicate_suppressed",
            EnhancedEventKind::ToolCallIdCollision => "enhanced.tool.call_id_collision",
            EnhancedEventKind::ToolRepetitionObserved => "enhanced.tool.repetition_observed",
            EnhancedEventKind::ToolRepetitionNoticeAppended => {
                "enhanced.tool.repetition_notice_appended"
            },
            EnhancedEventKind::ContextPruneStarted => "enhanced.context.prune_started",
            EnhancedEventKind::ContextPruneCompleted => "enhanced.context.prune_completed",
            EnhancedEventKind::ContextCompactionAvoided => "enhanced.context.compaction_avoided",
            EnhancedEventKind::ContextOverflowRetry => "enhanced.context.overflow_retry",
            EnhancedEventKind::ContextOverflowRetryRefused => {
                "enhanced.context.overflow_retry_refused"
            },
            EnhancedEventKind::ContextProjectionApplied => "enhanced.context.projection_applied",
            EnhancedEventKind::ContextProjectionRestored => "enhanced.context.projection_restored",
            EnhancedEventKind::ContextProjectionCleared => "enhanced.context.projection_cleared",
            EnhancedEventKind::ContinuationAllowed => "enhanced.continuation.allowed",
            EnhancedEventKind::ContinuationExhausted => "enhanced.continuation.exhausted",
            EnhancedEventKind::SessionFeaturesApplied => "enhanced.session.features_applied",
        }
    }
}

/// The details of an event. A detail that does not apply is absent.
#[derive(Debug, PartialEq, Eq)]
pub struct EnhancedEventFields {
    pub thread_id_hash: Option<String>,
    pub runtime_digest: Option<String>,
    pub feature_profile: Option<String>,
    pub provider_id: Option<String>,
    pub model_id: Option<String>,
    pub request_index: Option<u64>,
    pub call_id_hash: Option<String>,
    pub before_token_estimate: Option<u64>,
    pub after_token_estimate: Option<u64>,
    pub chars_removed: Option<u64>,
    pub retry_index: Option<u8>,
    pub continuation_index: Option<u8>,
    pub outcome: Option<String>,
    pub succeeded: Option<bool>,
}

/// The model of [`EnhancedEventFields`].
#[verifier::ext_equal]
pub struct EnhancedEventFieldsView {
    pub thread_id_hash: Option<Seq<char>>,
    pub runtime_digest: Option<Seq<char>>,
    pub feature_profile: Option<Seq<char>>,
    pub provider_id: Option<Seq<char>>,
    pub model_id: Option<Seq<char>>,
    pub request_index: Option<u64>,
    pub call_id_hash: Option<Seq<char>>,
    pub before_token_estimate: Option<u64>,
    pub after_token_estimate: Option<u64>,
    pub chars_removed: Option<u64>,
    pub retry_index: Option<u8>,
    pub continuation_index: Option<u8>,
    pub outcome: Option<Seq<char>>,
    pub succeeded: Option<bool>,
}

impl View for EnhancedEventFields {
    type V = EnhancedEventFieldsView;

    open spec fn view(&self) -> EnhancedEventFieldsView {
        EnhancedEventFieldsView {
            thread_id_hash: self.thread_id_hash.deep_view(),
            runtime_digest: self.runtime_digest.deep_view(),
            feature_profile: self.feature_profile.deep_view(),
            provider_id: self.provider_id.deep_view(),
            model_id: self.model_id.deep_view(),
            request_index: self.request_index,
            call_id_hash: self.call_id_hash.deep_view(),
            before_token_estimate: self.before_token_estimate,
            after_token_estimate: self.after_token_estimate,
            chars_removed: self.chars_removed,
            retry_index: self.retry_index,
            continuation_index: self.continuation_index,
            outcome: self.outcome.deep_view(),
            succeeded: self.succeeded,
        }
    }
}

impl DeepView for EnhancedEventFields {
    type V = EnhancedEventFieldsView;

    open spec fn deep_view(&self) -> EnhancedEventFieldsView {
        self@
    }
}

impl Clone for EnhancedEventFields {
    fn clone(&self) -> (r: Self)
        ensures
            r@ == self@,
    {
        EnhancedEventFields {
            thread_id_hash: self.thread_id_hash.clone(),
            runtime_digest: self.runtime_digest.clone(),
            feature_profile: self.feature_profile.clone(),
            provider_id: self.provider_id.clone(),
            model_id: self.model_id.clone(),
            request_index: self.request_index,
            call_id_hash: self.call_id_hash.clone(),
            before_token_estimate: self.before_token_estimate,
            after_token_estimate: self.after_token_estimate,
            chars_removed: self.chars_removed,
            retry_index: self.retry_index,
            continuation_index: self.continuation_index,
            outcome: self.outcome.clone(),
            succeeded: self.succeeded,
        }
    }
}

impl EnhancedEventFieldsView {
    /// Details of which none is given.
    pub open spec fn none() -> Self {
        EnhancedEventFieldsView {
            thread_id_hash: None,
            runtime_digest: None,
            feature_profile: None,
            provider_id: None,
            model_id: None,
            request_index: None,
            call_id_hash: None,
            before_token_estimate: None,
            after_token_estimate: None,
            chars_removed: None,
            retry_index: None,
            continuation_index: None,
            outcome: None,
            succeeded: None,
        }
    }
}

impl Default for EnhancedEventFields {
    fn default() -> (r: Self)
        ensures
            r@ == EnhancedEventFieldsView::none(),
    {
        EnhancedEventFields {
            thread_id_hash: None,
            runtime_digest: None,
            feature_profile: None,
            provider_id: None,
            model_id: None,
            request_index: None,
            call_id_hash: None,
            before_token_estimate: None,
            after_token_estimate: None,
            chars_removed: None,
            retry_index: None,
            continuation_index: None,
            outcome: None,
            succeeded: None,
        }
    }
}

/// One event.
#[derive(Debug, PartialEq, Eq)]
pub struct EnhancedEvent {
    pub kind: EnhancedEventKind,
    pub name: String,
    pub fields: EnhancedEventFields,
}

/// The model of [`EnhancedEvent`].
#[verifier::ext_equal]
pub struct EnhancedEventView {
    pub kind: EnhancedEventKind,
    pub name: Seq<char>,
    pub fields: EnhancedEventFieldsView,
}

impl View for EnhancedEvent {
    type V = EnhancedEventView;

    open spec fn view(&self) -> EnhancedEventView {
        EnhancedEventView {
            kind: self.kind,
            name: self.name@,
            fields: self.fields.deep_view(),
        }
    }
}

impl DeepView for EnhancedEvent {
    type V = EnhancedEventView;

    open spec fn deep_view(&self) -> EnhancedEventView {
        self@
    }
}

impl Clone for EnhancedEvent {
    fn clone(&self) -> (r: Self)
        ensures
            r@ == self@,
    {
        EnhancedEvent {
            kind: self.kind,
            name: self.name.clone(),
            fields: self.fields.clone(),
        }
    }
}

/// The event of a kind with the given details.
pub open spec fn event(
    kind: EnhancedEventKind,
    fields: EnhancedEventFieldsView,
) -> EnhancedEventView {
    EnhancedEventView { kind, name: kind.event_name(), fields }
}

impl EnhancedEvent {
    /// An event that bears the name of its kind.
    pub fn new(kind: EnhancedEventKind, fields: EnhancedEventFields) -> (r: Self)
        ensures
            r@ == event(kind, fields@),
    {
        EnhancedEvent { kind, name: kind.name().to_owned(), fields }
    }
}

/// The digest by which an identifier is reported in place of itself.
pub fn hash_identifier(value: &str) -> (r: String)
    ensures
        r@ == digest::text_digest(value@),
        digest::is_digest(r@),
{
    digest::text_sha256(value)
}

/// The parts of a field name under which a secret or a private text may hide.
pub open spec fn forbidden_field_names() -> Seq<Seq<char>> {
    seq![
        "api_key"@,
        "api-key"@,
        "apikey"@,
        "authorization"@,
        "auth"@,
        "cookie"@,
        "prompt"@,
        "raw_prompt"@,
        "raw_tool_output"@,
        "tool_output"@,
        "user_text"@,
        "reasoning"@,
        "encrypted_content"@,
    ]
}

/// One character of a field name as it is compared: ASCII letters in lower case,
/// a hyphen as an underscore.
pub open spec fn normal_char(c: char) -> char {
    if c == '-' {
        '_'
    } else {
        text::ascii_lower(c)
    }
}

/// A field name as it is compared: trimmed, then character by character.
pub open spec fn normal_name(name: Seq<char>) -> Seq<char> {
    let bare = text::trimmed(name);
    Seq::new(bare.len(), |i: int| normal_char(bare[i]))
}

/// Whether a field must not be reported.
pub open spec fn is_forbidden(name: Seq<char>) -> bool {
    exists|i: int|
        0 <= i < forbidden_field_names().len() && text::holds_text(
            normal_name(name),
            #[trigger] forbidden_field_names()[i],
        )
}

/// The field name as it is compared.
fn normalized(name: &str) -> (r: String)
    ensures
        r@ == normal_name(name@),
{
    let bare = text::trim_text(name);
    let chars = text::characters(bare.as_str());
    let mut out = String::new();
    let mut i: usize = 0;
    while i < chars.len()
        invariant
            i <= chars.len(),
            chars@ == text::trimmed(name@),
            out@ == normal_name(name@).take(i as int),
        decreases chars.len() - i,
    {
        let c = chars[i];
        out.push(
            if c == '-' {
                '_'
            } else {
                text::lower_char(c)
            },
        );
        i = i + 1;
        assert(out@ =~= normal_name(name@).take(i as int));
    }
    assert(out@ =~= normal_name(name@));
    out
}

/// The parts of a field name under which a secret or a private text may hide.
fn forbidden_names() -> (r: Vec<&'static str>)
    ensures
        r.len() == forbidden_field_names().len(),
        forall|i: int| 0 <= i < r.len() ==> (#[trigger] r@[i])@ == forbidden_field_names()[i],
{
    vec![
        "api_key",
        "api-key",
        "apikey",
        "authorization",
        "auth",
        "cookie",
        "prompt",
        "raw_prompt",
        "raw_tool_output",
        "tool_output",
        "user_text",
        "reasoning",
        "encrypted_content",
    ]
}

/// Tells whether a field must not be reported, because its name may stand for a
/// secret or a private text.
pub fn field_name_is_forbidden(name: &str) -> (r: bool)
    ensures
        r == is_forbidden(name@),
{
    let normal = normalized(name);
    let names = forbidden_names();
    let mut i: usize = 0;
    while i < names.len()
        invariant
            i <= names.len(),
            normal@ == normal_name(name@),
            names.len() == forbidden_field_names().len(),
            forall|k: int|
                0 <= k < names.len() ==> (#[trigger] names@[k])@ == forbidden_field_names()[k],
            forall|k: int|
                0 <= k < i ==> !text::holds_text(
                    normal_name(name@),
                    #[trigger] forbidden_field_names()[k],
                ),
        decreases names.len() - i,
    {
        assert(names@[i as int]@ == forbidden_field_names()[i as int]);
        if text::contains_text(normal.as_str(), names[i]) {
            return true;
        }
        i = i + 1;
    }
    false
}

/// The events of a session, in the order in which they happened.
#[derive(Debug)]
pub struct MemoryTelemetry {
    pub events: Vec<EnhancedEvent>,
}

impl View for MemoryTelemetry {
    type V = Seq<EnhancedEventView>;

    open spec fn view(&self) -> Seq<EnhancedEventView> {
        self.events.deep_view()
    }
}

/// How many of the events are of a kind.
pub open spec fn kind_count(events: Seq<EnhancedEventView>, kind: EnhancedEventKind) -> nat {
    events.filter(|e: EnhancedEventView| e.kind == kind).len()
}

impl Default for MemoryTelemetry {
    fn default() -> (r: Self)
        ensures
            r@ == Seq::<EnhancedEventView>::empty(),
    {
        MemoryTelemetry { events: Vec::new() }
    }
}

impl MemoryTelemetry {
    /// Adds an event at the end.
    pub fn emit(&mut self, event: EnhancedEvent)
        ensures
            final(self)@ == old(self)@.push(event@),
    {
        self.events.push(event);
        assert(self@ =~= old(self)@.push(event@));
    }

    /// Adds copies of events at the end, in their order.
    pub fn emit_all(&mut self, events: &Vec<EnhancedEvent>)
        ensures
            final(self)@ == old(self)@ + events.deep_view(),
    {
        let mut i: usize = 0;
        while i < events.len()
            invariant
                i <= events.len(),
                self@ == old(self)@ + events.deep_view().take(i as int),
            decreases events.len() - i,
        {
            self.emit(events[i].clone());
            i = i + 1;
            assert(self@ =~= old(self)@ + events.deep_view().take(i as int));
        }
        assert(self@ =~= old(self)@ + events.deep_view());
    }

    /// Counts the events of a kind.
    pub fn count(&self, kind: EnhancedEventKind) -> (r: usize)
        ensures
            r as nat == kind_count(self@, kind),
    {
        let ghost of_kind = |e: EnhancedEventView| e.kind == kind;
        let mut n: usize = 0;
        let mut i: usize = 0;
        proof {
            reveal(Seq::filter);
        }
        while i < self.events.len()
            invariant
                i <= self.events.len(),
                n <= i,
                of_kind == (|e: EnhancedEventView| e.kind == kind),
                n as nat == self@.take(i as int).filter(of_kind).len(),
            decreases self.events.len() - i,
        {
            proof {
                reveal(Seq::filter);
                assert(self@.take(i + 1).drop_last() =~= self@.take(i as int));
                assert(self@.take(i + 1).last() == self.events@[i as int]@);
            }
            if self.events[i].kind == kind {
                n = n + 1;
            }
            i = i + 1;
        }
        assert(self@.take(i as int) =~= self@);
        n
    }
}

/// The label of a profile.
pub fn profile_label(profile: AblationProfile) -> (r: String)
    ensures
        r@ == profile.name(),
{
    profile.as_str().to_owned()
}

/// A field name with every character as it is compared, but not trimmed.
pub open spec fn respelled(name: Seq<char>) -> Seq<char> {
    Seq::new(name.len(), |i: int| normal_char(name[i]))
}

proof fn lemma_trim_respelled(s: Seq<char>)
    ensures
        text::trim_front(respelled(s)) == respelled(text::trim_front(s)),
        text::trim_back(respelled(s)) == respelled(text::trim_back(s)),
    decreases s.len(),
{
    if s.len() > 0 {
        if text::is_white_space(s[0]) {
            let rest = s.subrange(1, s.len() as int);
            lemma_trim_respelled(rest);
            assert(respelled(s).subrange(1, s.len() as int) =~= respelled(rest));
        }
        if text::is_white_space(s.last()) {
            lemma_trim_respelled(s.drop_last());
            assert(respelled(s).drop_last() =~= respelled(s.drop_last()));
        }
    }
}

/// Neither the case of ASCII letters nor the choice between hyphen and
/// underscore changes whether a field may be reported.
pub proof fn law_spelling_does_not_hide_a_field(name: Seq<char>)
    ensures
        is_forbidden(respelled(name)) == is_forbidden(name),
{
    lemma_trim_respelled(name);
    lemma_trim_respelled(text::trim_front(name));
    assert(normal_name(respelled(name)) =~= normal_name(name));
}

/// Every event is named within the namespace `enhanced.`.
pub proof fn law_events_keep_to_their_namespace(kind: EnhancedEventKind)
    ensures
        text::begins_with(kind.event_name(), "enhanced."@),
{
    reveal_strlit("enhanced.");
    reveal_strlit("enhanced.tool.call_admitted");
    reveal_strlit("enhanced.tool.call_completed");
    reveal_strlit("enhanced.tool.duplicate_detected");
    reveal_strlit("enhanced.tool.duplicate_suppressed");
    reveal_strlit("enhanced.tool.call_id_collision");
    reveal_strlit("enhanced.tool.repetition_observed");
    reveal_strlit("enhanced.tool.repetition_notice_appended");
    reveal_strlit("enhanced.context.prune_started");
    reveal_strlit("enhanced.context.prune_completed");
    reveal_strlit("enhanced.context.compaction_avoided");
    reveal_strlit("enhanced.context.overflow_retry");
    reveal_strlit("enhanced.context.overflow_retry_refused");
    reveal_strlit("enhanced.context.projection_applied");
    reveal_strlit("enhanced.context.projection_restored");
    reveal_strlit("enhanced.context.projection_cleared");
    reveal_strlit("enhanced.continuation.allowed");
    reveal_strlit("enhanced.continuation.exhausted");
    reveal_strlit("enhanced.session.features_applied");
    let name = kind.event_name();
    assert(name.len() >= 9);
    assert(name[0] == 'e' && name[1] == 'n' && name[2] == 'h' && name[3] == 'a' && name[4] == 'n'
        && name[5] == 'c' && name[6] == 'e' && name[7] == 'd' && name[8] == '.');
}

/// An event counts once, for its own kind and for no other.
pub proof fn law_emit_counts_once(
    events: Seq<EnhancedEventView>,
    event: EnhancedEventView,
    kind: EnhancedEventKind,
)
    ensures
        kind_count(events.push(event), kind) == kind_count(events, kind) + (if event.kind == kind {
            1nat
        } else {
            0nat
        }),
{
    events.lemma_filter_push(event, |e: EnhancedEventView| e.kind == kind);
}

/// The words that no reported name may hold.
pub open spec fn names_a_secret(word: Seq<char>) -> bool {
    ||| word == "api_key"@
    ||| word == "apikey"@
    ||| word == "authorization"@
    ||| word == "auth"@
    ||| word == "cookie"@
    ||| word == "prompt"@
    ||| word == "raw_prompt"@
    ||| word == "raw_tool_output"@
    ||| word == "tool_output"@
    ||| word == "user_text"@
    ||| word == "reasoning"@
    ||| word == "encrypted_content"@
}

proof fn lemma_secrets_are_plain(word: Seq<char>)
    requires
        names_a_secret(word),
    ensures
        word.len() > 0,
        forall|k: int|
            0 <= k < word.len() ==> normal_char(#[trigger] word[k]) == word[k]
                && !text::is_white_space(word[k]),
        exists|i: int|
            0 <= i < forbidden_field_names().len() && #[trigger] forbidden_field_names()[i]
                == word,
{
    reveal_strlit("api_key");
    reveal_strlit("apikey");
    reveal_strlit("authorization");
    reveal_strlit("auth");
    reveal_strlit("cookie");
    reveal_strlit("prompt");
    reveal_strlit("raw_prompt");
    reveal_strlit("raw_tool_output");
    reveal_strlit("tool_output");
    reveal_strlit("user_text");
    reveal_strlit("reasoning");
    reveal_strlit("encrypted_content");
    let all = forbidden_field_names();
    assert(all[0] == "api_key"@ && all[2] == "apikey"@ && all[3] == "authorization"@ && all[4]
        == "auth"@ && all[5] == "cookie"@ && all[6] == "prompt"@ && all[7] == "raw_prompt"@
        && all[8] == "raw_tool_output"@ && all[9] == "tool_output"@ && all[10] == "user_text"@
        && all[11] == "reasoning"@ && all[12] == "encrypted_content"@);
}

/// A name that holds a word for a secret anywhere is forbidden.
pub proof fn law_secrets_are_forbidden(a: Seq<char>, word: Seq<char>, b: Seq<char>)
    requires
        names_a_secret(word),
    ensures
        is_forbidden(a + word + b),
{
    lemma_secrets_are_plain(word);
    let name = a + word + b;
    let bare = text::trimmed(name);
    text::law_trimming_takes_white_space_off(name);
    if bare.len() == 0 {
        assert(name[a.len() as int] == word[0]);
        assert(text::is_white_space(name[a.len() as int]));
    }
    let from = choose|from: int|
        {
            &&& 0 <= from
            &&& from + bare.len() <= name.len()
            &&& bare == #[trigger] name.subrange(from, from + bare.len())
            &&& forall|i: int|
                0 <= i < name.len() && !(from <= i < from + bare.len()) ==> text::is_white_space(
                    #[trigger] name[i],
                )
        };
    let first = a.len() as int;
    let last = a.len() + word.len() - 1;
    assert(name[first] == word[0]);
    assert(name[last] == word[word.len() - 1]);
    assert(from <= first && last < from + bare.len());
    let normal = normal_name(name);
    let at = first - from;
    assert forall|k: int| 0 <= k < word.len() implies normal[at + k] == #[trigger] word[k] by {
        assert(bare[at + k] == name[first + k]);
        assert(name[first + k] == word[k]);
    }
    assert(text::holds_text_at(normal, word, at));
    let i = choose|i: int|
        0 <= i < forbidden_field_names().len() && #[trigger] forbidden_field_names()[i] == word;
    assert(text::holds_text(normal, forbidden_field_names()[i]));
}

/// Capitals count as small letters and hyphens as underscores, at whatever place they
/// stand; white space around a name does not count.
pub proof fn law_names_are_compared_in_one_spelling(a: Seq<char>, b: Seq<char>, k: int)
    requires
        a.len() == b.len(),
        0 <= k < a.len(),
        forall|i: int| 0 <= i < a.len() && i != k ==> a[i] == #[trigger] b[i],
        a[k] == '-' && b[k] == '_' || 'A' <= a[k] <= 'Z' && b[k] as int == a[k] as int + 32,
    ensures
        is_forbidden(a) == is_forbidden(b),
{
    law_spelling_does_not_hide_a_field(a);
    law_spelling_does_not_hide_a_field(b);
    assert forall|i: int| 0 <= i < a.len() implies respelled(a)[i] == respelled(b)[i] by {
        if i == k {
            assert(normal_char(a[k]) == normal_char(b[k]));
        }
    }
    assert(respelled(a) =~= respelled(b));
}

/// An event bears its kind, the name of its kind and what it is told.
pub proof fn law_events_bear_what_they_are_told(
    kind: EnhancedEventKind,
    fields: EnhancedEventFieldsView,
)
    ensures
        event(kind, fields).kind == kind,
        event(kind, fields).fields == fields,
        event(kind, fields).name == kind.event_name(),
{
}

} // verus!
