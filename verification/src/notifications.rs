//! The notifications by which clients learn of the runtime.

use crate::config::EnhancedRuntimeFeatures;
use crate::telemetry;
use crate::telemetry::{
    EnhancedEvent, EnhancedEventFields, EnhancedEventFieldsView, EnhancedEventView,
};
use vstd::prelude::*;

verus! {

/// The method of the notification that tells which runtime is at work.
pub const ENHANCED_IDENTITY_NOTIFICATION: &'static str = "vellum/enhancedRuntimeIdentity";

/// The method of the notification that reports an event.
pub const ENHANCED_EVENT_NOTIFICATION: &'static str = "vellum/enhancedEvent";

/// The ports as they are reported. The experiments are not.
#[derive(Debug, Clone, Copy, PartialEq, Eq, Structural)]
pub struct EnhancedPortFlags {
    pub qwen_tool_reliability: bool,
    pub deepseek_context_recovery: bool,
    pub qwen_bounded_continuation: bool,
}

/// The ports of a set of switches.
pub open spec fn reported_ports(features: EnhancedRuntimeFeatures) -> EnhancedPortFlags {
    EnhancedPortFlags {
        qwen_tool_reliability: features.qwen_tool_reliability,
        deepseek_context_recovery: features.deepseek_context_recovery,
        qwen_bounded_continuation: features.qwen_bounded_continuation,
    }
}

impl vstd::std_specs::convert::FromSpecImpl<EnhancedRuntimeFeatures> for EnhancedPortFlags {
    open spec fn obeys_from_spec() -> bool {
        true
    }

    open spec fn from_spec(value: EnhancedRuntimeFeatures) -> Self {
        reported_ports(value)
    }
}

impl From<EnhancedRuntimeFeatures> for EnhancedPortFlags {
    fn from(value: EnhancedRuntimeFeatures) -> (r: Self) {
        EnhancedPortFlags {
            qwen_tool_reliability: value.qwen_tool_reliability,
            deepseek_context_recovery: value.deepseek_context_recovery,
            qwen_bounded_continuation: value.qwen_bounded_continuation,
        }
    }
}

/// The value of a detail of an event.
#[derive(Debug, PartialEq, Eq)]
pub enum FieldValue {
    Text(String),
    Number(u64),
    Flag(bool),
}

/// The model of [`FieldValue`].
#[verifier::ext_equal]
pub enum FieldValueView {
    Text(Seq<char>),
    Number(u64),
    Flag(bool),
}

impl View for FieldValue {
    type V = FieldValueView;

    open spec fn view(&self) -> FieldValueView {
        match self {
            FieldValue::Text(value) => FieldValueView::Text(value@),
            FieldValue::Number(value) => FieldValueView::Number(*value),
            FieldValue::Flag(value) => FieldValueView::Flag(*value),
        }
    }
}

impl DeepView for FieldValue {
    type V = FieldValueView;

    open spec fn deep_view(&self) -> FieldValueView {
        self@
    }
}

impl Clone for FieldValue {
    fn clone(&self) -> (r: Self)
        ensures
            r@ == self@,
    {
        match self {
            FieldValue::Text(value) => FieldValue::Text(value.clone()),
            FieldValue::Number(value) => FieldValue::Number(*value),
            FieldValue::Flag(value) => FieldValue::Flag(*value),
        }
    }
}

/// A detail that an event may have, under the name by which it is reported.
#[derive(Debug, PartialEq, Eq)]
pub struct CandidateField {
    pub name: String,
    pub value: Option<FieldValue>,
}

/// The model of [`CandidateField`].
#[verifier::ext_equal]
pub struct CandidateFieldView {
    pub name: Seq<char>,
    pub value: Option<FieldValueView>,
}

impl View for CandidateField {
    type V = CandidateFieldView;

    open spec fn view(&self) -> CandidateFieldView {
        CandidateFieldView {
            name: self.name@,
            value: self.value.deep_view(),
        }
    }
}

impl DeepView for CandidateField {
    type V = CandidateFieldView;

    open spec fn deep_view(&self) -> CandidateFieldView {
        self@
    }
}

impl Clone for CandidateField {
    fn clone(&self) -> (r: Self)
        ensures
            r@ == self@,
    {
        CandidateField {
            name: self.name.clone(),
            value: self.value.clone(),
        }
    }
}

/// A detail that is reported.
#[derive(Debug, PartialEq, Eq)]
pub struct NotificationField {
    pub name: String,
    pub value: FieldValue,
}

/// The model of [`NotificationField`].
#[verifier::ext_equal]
pub struct NotificationFieldView {
    pub name: Seq<char>,
    pub value: FieldValueView,
}

impl View for NotificationField {
    type V = NotificationFieldView;

    open spec fn view(&self) -> NotificationFieldView {
        NotificationFieldView {
            name: self.name@,
            value: self.value.deep_view(),
        }
    }
}

impl DeepView for NotificationField {
    type V = NotificationFieldView;

    open spec fn deep_view(&self) -> NotificationFieldView {
        self@
    }
}

impl Clone for NotificationField {
    fn clone(&self) -> (r: Self)
        ensures
            r@ == self@,
    {
        NotificationField {
            name: self.name.clone(),
            value: self.value.clone(),
        }
    }
}

/// A notification.
#[derive(Debug, PartialEq, Eq)]
pub enum Notification {
    Identity {
        enhanced_commit: String,
        runtime_digest: String,
        feature_profile: String,
        ports: EnhancedPortFlags,
    },
    Event { name: String, fields: Vec<NotificationField> },
}

/// The model of [`Notification`].
#[verifier::ext_equal]
pub enum NotificationView {
    Identity {
        enhanced_commit: Seq<char>,
        runtime_digest: Seq<char>,
        feature_profile: Seq<char>,
        ports: EnhancedPortFlags,
    },
    Event { name: Seq<char>, fields: Seq<NotificationFieldView> },
}

impl View for Notification {
    type V = NotificationView;

    open spec fn view(&self) -> NotificationView {
        match self {
            Notification::Identity { enhanced_commit, runtime_digest, feature_profile, ports } => {
                NotificationView::Identity {
                    enhanced_commit: enhanced_commit@,
                    runtime_digest: runtime_digest@,
                    feature_profile: feature_profile@,
                    ports: *ports,
                }
            },
            Notification::Event { name, fields } => NotificationView::Event {
                name: name@,
                fields: fields.deep_view(),
            },
        }
    }
}

impl DeepView for Notification {
    type V = NotificationView;

    open spec fn deep_view(&self) -> NotificationView {
        self@
    }
}

impl Clone for Notification {
    fn clone(&self) -> (r: Self)
        ensures
            r@ == self@,
    {
        match self {
            Notification::Identity { enhanced_commit, runtime_digest, feature_profile, ports } => {
                Notification::Identity {
                    enhanced_commit: enhanced_commit.clone(),
                    runtime_digest: runtime_digest.clone(),
                    feature_profile: feature_profile.clone(),
                    ports: *ports,
                }
            },
            Notification::Event { name, fields } => Notification::Event {
                name: name.clone(),
                fields: fields.clone(),
            },
        }
    }
}

impl NotificationView {
    /// The method of a notification.
    pub open spec fn method_name(self) -> Seq<char> {
        match self {
            NotificationView::Identity { .. } => ENHANCED_IDENTITY_NOTIFICATION@,
            NotificationView::Event { .. } => ENHANCED_EVENT_NOTIFICATION@,
        }
    }
}

impl Notification {
    /// The method of the notification.
    pub fn method(&self) -> (r: &'static str)
        ensures
            r@ == self@.method_name(),
    {
        match self {
            Notification::Identity { .. } => ENHANCED_IDENTITY_NOTIFICATION,
            Notification::Event { .. } => ENHANCED_EVENT_NOTIFICATION,
        }
    }
}

/// Tells which runtime is at work.
pub fn identity_notification(
    enhanced_commit: &str,
    runtime_digest: &str,
    feature_profile: &str,
    features: EnhancedRuntimeFeatures,
) -> (r: Notification)
    ensures
        r@ == (NotificationView::Identity {
            enhanced_commit: enhanced_commit@,
            runtime_digest: runtime_digest@,
            feature_profile: feature_profile@,
            ports: reported_ports(features),
        }),
{
    Notification::Identity {
        enhanced_commit: enhanced_commit.to_owned(),
        runtime_digest: runtime_digest.to_owned(),
        feature_profile: feature_profile.to_owned(),
        ports: EnhancedPortFlags::from(features),
    }
}

/// A text detail.
pub open spec fn text_value(value: Option<Seq<char>>) -> Option<FieldValueView> {
    match value {
        Some(t) => Some(FieldValueView::Text(t)),
        None => None,
    }
}

/// A numeric detail.
pub open spec fn number_value(value: Option<u64>) -> Option<FieldValueView> {
    match value {
        Some(n) => Some(FieldValueView::Number(n)),
        None => None,
    }
}

/// A small numeric detail.
pub open spec fn small_value(value: Option<u8>) -> Option<FieldValueView> {
    match value {
        Some(n) => Some(FieldValueView::Number(n as u64)),
        None => None,
    }
}

/// A detail that is a switch.
pub open spec fn flag_value(value: Option<bool>) -> Option<FieldValueView> {
    match value {
        Some(b) => Some(FieldValueView::Flag(b)),
        None => None,
    }
}

/// All details that an event may have, under the names by which they are
/// reported.
pub open spec fn candidates(fields: EnhancedEventFieldsView) -> Seq<CandidateFieldView> {
    seq![
        CandidateFieldView { name: "threadIdHash"@, value: text_value(fields.thread_id_hash) },
        CandidateFieldView { name: "runtimeDigest"@, value: text_value(fields.runtime_digest) },
        CandidateFieldView { name: "featureProfile"@, value: text_value(fields.feature_profile) },
        CandidateFieldView { name: "providerId"@, value: text_value(fields.provider_id) },
        CandidateFieldView { name: "modelId"@, value: text_value(fields.model_id) },
        CandidateFieldView { name: "requestIndex"@, value: number_value(fields.request_index) },
        CandidateFieldView { name: "callIdHash"@, value: text_value(fields.call_id_hash) },
        CandidateFieldView {
            name: "beforeTokenEstimate"@,
            value: number_value(fields.before_token_estimate),
        },
        CandidateFieldView {
            name: "afterTokenEstimate"@,
            value: number_value(fields.after_token_estimate),
        },
        CandidateFieldView { name: "charsRemoved"@, value: number_value(fields.chars_removed) },
        CandidateFieldView { name: "retryIndex"@, value: small_value(fields.retry_index) },
        CandidateFieldView {
            name: "continuationIndex"@,
            value: small_value(fields.continuation_index),
        },
        CandidateFieldView { name: "outcome"@, value: text_value(fields.outcome) },
        CandidateFieldView { name: "succeeded"@, value: flag_value(fields.succeeded) },
    ]
}

/// A detail is reported if it is given and its name is not forbidden.
pub open spec fn reported_field(field: CandidateFieldView) -> Option<NotificationFieldView> {
    match field.value {
        Some(value) => if telemetry::is_forbidden(field.name) {
            None
        } else {
            Some(NotificationFieldView { name: field.name, value })
        },
        None => None,
    }
}

/// The details that are reported of those that an event may have.
pub open spec fn reported_fields(fields: Seq<CandidateFieldView>) -> Seq<NotificationFieldView> {
    fields.filter_map(|field: CandidateFieldView| reported_field(field))
}

/// The notification of an event.
pub open spec fn event_report(event: EnhancedEventView) -> NotificationView {
    NotificationView::Event {
        name: event.name,
        fields: reported_fields(candidates(event.fields)),
    }
}

fn text_candidate(name: &str, value: &Option<String>) -> (r: CandidateField)
    ensures
        r@ == (CandidateFieldView { name: name@, value: text_value(value.deep_view()) }),
{
    let value = match value {
        Some(t) => Some(FieldValue::Text(t.clone())),
        None => None,
    };
    CandidateField { name: name.to_owned(), value }
}

fn number_candidate(name: &str, value: Option<u64>) -> (r: CandidateField)
    ensures
        r@ == (CandidateFieldView { name: name@, value: number_value(value) }),
{
    let value = match value {
        Some(n) => Some(FieldValue::Number(n)),
        None => None,
    };
    CandidateField { name: name.to_owned(), value }
}

fn small_candidate(name: &str, value: Option<u8>) -> (r: CandidateField)
    ensures
        r@ == (CandidateFieldView { name: name@, value: small_value(value) }),
{
    let value = match value {
        Some(n) => Some(FieldValue::Number(n as u64)),
        None => None,
    };
    CandidateField { name: name.to_owned(), value }
}

fn flag_candidate(name: &str, value: Option<bool>) -> (r: CandidateField)
    ensures
        r@ == (CandidateFieldView { name: name@, value: flag_value(value) }),
{
    let value = match value {
        Some(b) => Some(FieldValue::Flag(b)),
        None => None,
    };
    CandidateField { name: name.to_owned(), value }
}

/// All details that an event may have.
pub fn candidate_fields(fields: &EnhancedEventFields) -> (r: Vec<CandidateField>)
    ensures
        r.deep_view() == candidates(fields@),
{
    let r = vec![
        text_candidate("threadIdHash", &fields.thread_id_hash),
        text_candidate("runtimeDigest", &fields.runtime_digest),
        text_candidate("featureProfile", &fields.feature_profile),
        text_candidate("providerId", &fields.provider_id),
        text_candidate("modelId", &fields.model_id),
        number_candidate("requestIndex", fields.request_index),
        text_candidate("callIdHash", &fields.call_id_hash),
        number_candidate("beforeTokenEstimate", fields.before_token_estimate),
        number_candidate("afterTokenEstimate", fields.after_token_estimate),
        number_candidate("charsRemoved", fields.chars_removed),
        small_candidate("retryIndex", fields.retry_index),
        small_candidate("continuationIndex", fields.continuation_index),
        text_candidate("outcome", &fields.outcome),
        flag_candidate("succeeded", fields.succeeded),
    ];
    assert(r.deep_view() =~= candidates(fields@));
    r
}

/// Picks the details that are reported.
pub fn select_fields(fields: &Vec<CandidateField>) -> (r: Vec<NotificationField>)
    ensures
        r.deep_view() == reported_fields(fields.deep_view()),
{
    let ghost all = fields.deep_view();
    let mut out: Vec<NotificationField> = Vec::new();
    let mut i: usize = 0;
    proof {
        assert(reported_fields(all.take(0)) =~= seq![]) by {
            reveal(Seq::filter_map);
        }
    }
    while i < fields.len()
        invariant
            i <= fields.len(),
            all == fields.deep_view(),
            out.deep_view() =~= reported_fields(all.take(i as int)),
        decreases fields.len() - i,
    {
        let field = &fields[i];
        proof {
            all.lemma_filter_map_take_succ(
                |field: CandidateFieldView| reported_field(field),
                i as int,
            );
            assert(all[i as int] == field@);
        }
        if let Some(value) = &field.value {
            if !telemetry::field_name_is_forbidden(field.name.as_str()) {
                let ghost before = out.deep_view();
                let picked = NotificationField { name: field.name.clone(), value: value.clone() };
                out.push(picked);
                assert(out.deep_view() =~= before.push(picked@));
            }
        }
        i = i + 1;
    }
    assert(all.take(i as int) =~= all);
    out
}

/// Reports an event. Of its details those are reported that are given and whose
/// names cannot stand for a secret.
pub fn event_notification(event: &EnhancedEvent) -> (r: Notification)
    ensures
        r@ == event_report(event@),
{
    let fields = select_fields(&candidate_fields(&event.fields));
    Notification::Event { name: event.name.clone(), fields }
}

/// Nothing is reported under a name that may stand for a secret or a private text,
/// and nothing is reported that the event does not hold.
pub proof fn law_forbidden_fields_are_not_reported(fields: Seq<CandidateFieldView>, i: int)
    requires
        0 <= i < reported_fields(fields).len(),
    ensures
        !telemetry::is_forbidden(reported_fields(fields)[i].name),
        exists|k: int|
            0 <= k < fields.len() && (#[trigger] fields[k]).name == reported_fields(fields)[i].name
                && fields[k].value == Some(reported_fields(fields)[i].value),
    decreases fields.len(),
{
    let keep = |field: CandidateFieldView| reported_field(field);
    if fields.len() == 0 {
        assert(reported_fields(fields) =~= seq![]) by {
            reveal(Seq::filter_map);
        }
    } else {
        let n = fields.len() - 1;
        fields.lemma_filter_map_take_succ(keep, n as int);
        assert(fields.take(n as int) =~= fields.drop_last());
        assert(fields.take(n + 1) =~= fields);
        if i < reported_fields(fields.drop_last()).len() {
            law_forbidden_fields_are_not_reported(fields.drop_last(), i);
            let k = choose|k: int|
                0 <= k < n && (#[trigger] fields.drop_last()[k]).name == reported_fields(
                    fields.drop_last(),
                )[i].name && fields.drop_last()[k].value == Some(
                    reported_fields(fields.drop_last())[i].value,
                );
            assert(fields[k] == fields.drop_last()[k]);
        } else {
            assert(fields[n as int].value == Some(reported_fields(fields)[i].value));
        }
    }
}

/// Every detail that an event has and whose name is not forbidden is reported, and
/// nothing else.
pub proof fn law_permitted_details_are_reported(fields: Seq<CandidateFieldView>, k: int)
    requires
        0 <= k < fields.len(),
    ensures
        fields[k].value matches Some(value) ==> (!telemetry::is_forbidden(fields[k].name)
            ==> reported_fields(fields).contains(
            NotificationFieldView { name: fields[k].name, value },
        )),
        reported_fields(fields).len() <= fields.len(),
    decreases fields.len(),
{
    let keep = |field: CandidateFieldView| reported_field(field);
    let n = fields.len() - 1;
    let front = fields.drop_last();
    fields.lemma_filter_map_take_succ(keep, n as int);
    assert(fields.take(n as int) =~= front);
    assert(fields.take(n + 1) =~= fields);
    lemma_reported_length(front);
    if fields[k].value is Some && !telemetry::is_forbidden(fields[k].name) {
        let told = NotificationFieldView { name: fields[k].name, value: fields[k].value->0 };
        if k < n {
            assert(front[k] == fields[k]);
            law_permitted_details_are_reported(front, k);
            let i = choose|i: int|
                0 <= i < reported_fields(front).len() && reported_fields(front)[i] == told;
            assert(reported_fields(fields)[i] == told);
        } else {
            assert(reported_fields(fields).last() == told);
        }
    }
}

proof fn lemma_reported_length(fields: Seq<CandidateFieldView>)
    ensures
        reported_fields(fields).len() <= fields.len(),
    decreases fields.len(),
{
    let keep = |field: CandidateFieldView| reported_field(field);
    if fields.len() == 0 {
        assert(reported_fields(fields) =~= seq![]) by {
            reveal(Seq::filter_map);
        }
    } else {
        let n = fields.len() - 1;
        lemma_reported_length(fields.drop_last());
        fields.lemma_filter_map_take_succ(keep, n as int);
        assert(fields.take(n as int) =~= fields.drop_last());
        assert(fields.take(n + 1) =~= fields);
    }
}

/// Whether a detail is offered under a name.
pub open spec fn offers(
    fields: Seq<CandidateFieldView>,
    name: Seq<char>,
    value: Option<FieldValueView>,
) -> bool {
    fields.contains(CandidateFieldView { name, value })
}

/// Every field of an event is offered under its name: texts as texts, numbers as
/// numbers, and what is absent as absent.
pub proof fn law_every_field_is_offered(fields: EnhancedEventFieldsView)
    ensures
        ({
            let all = candidates(fields);
            &&& fields.thread_id_hash matches Some(t) ==> offers(
                all,
                "threadIdHash"@,
                Some(FieldValueView::Text(t)),
            )
            &&& fields.runtime_digest matches Some(t) ==> offers(
                all,
                "runtimeDigest"@,
                Some(FieldValueView::Text(t)),
            )
            &&& fields.feature_profile matches Some(t) ==> offers(
                all,
                "featureProfile"@,
                Some(FieldValueView::Text(t)),
            )
            &&& fields.provider_id matches Some(t) ==> offers(
                all,
                "providerId"@,
                Some(FieldValueView::Text(t)),
            )
            &&& fields.model_id matches Some(t) ==> offers(
                all,
                "modelId"@,
                Some(FieldValueView::Text(t)),
            )
            &&& fields.call_id_hash matches Some(t) ==> offers(
                all,
                "callIdHash"@,
                Some(FieldValueView::Text(t)),
            )
            &&& fields.outcome matches Some(t) ==> offers(
                all,
                "outcome"@,
                Some(FieldValueView::Text(t)),
            )
            &&& fields.request_index matches Some(n) ==> offers(
                all,
                "requestIndex"@,
                Some(FieldValueView::Number(n)),
            )
            &&& fields.before_token_estimate matches Some(n) ==> offers(
                all,
                "beforeTokenEstimate"@,
                Some(FieldValueView::Number(n)),
            )
            &&& fields.after_token_estimate matches Some(n) ==> offers(
                all,
                "afterTokenEstimate"@,
                Some(FieldValueView::Number(n)),
            )
            &&& fields.chars_removed matches Some(n) ==> offers(
                all,
                "charsRemoved"@,
                Some(FieldValueView::Number(n)),
            )
            &&& fields.retry_index matches Some(n) ==> offers(
                all,
                "retryIndex"@,
                Some(FieldValueView::Number(n as u64)),
            )
            &&& fields.continuation_index matches Some(n) ==> offers(
                all,
                "continuationIndex"@,
                Some(FieldValueView::Number(n as u64)),
            )
            &&& fields.succeeded matches Some(b) ==> offers(
                all,
                "succeeded"@,
                Some(FieldValueView::Flag(b)),
            )
            &&& all.len() == 14
        }),
{
    let all = candidates(fields);
    assert(all[0].name == "threadIdHash"@ && all[1].name == "runtimeDigest"@ && all[2].name
        == "featureProfile"@ && all[3].name == "providerId"@ && all[4].name == "modelId"@);
    assert(all[5].name == "requestIndex"@ && all[6].name == "callIdHash"@ && all[7].name
        == "beforeTokenEstimate"@ && all[8].name == "afterTokenEstimate"@ && all[9].name
        == "charsRemoved"@);
    assert(all[10].name == "retryIndex"@ && all[11].name == "continuationIndex"@ && all[12].name
        == "outcome"@ && all[13].name == "succeeded"@);
}

/// An event is reported by its name with its permitted details, and the three ports as
/// they are switched.
pub proof fn law_reports_tell_the_event(
    event: EnhancedEventView,
    features: EnhancedRuntimeFeatures,
)
    ensures
        event_report(event) matches NotificationView::Event { name, fields } && name == event.name
            && fields == reported_fields(candidates(event.fields)),
        event_report(event).method_name() == "vellum/enhancedEvent"@,
        reported_ports(features).qwen_tool_reliability == features.qwen_tool_reliability,
        reported_ports(features).deepseek_context_recovery == features.deepseek_context_recovery,
        reported_ports(features).qwen_bounded_continuation == features.qwen_bounded_continuation,
{
}

} // verus!
