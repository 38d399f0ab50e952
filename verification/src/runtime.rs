//! The runtime of a session, and the switches that it starts with.

use crate::bounded_continuation::ReservedContinuation;
use crate::call_ids::CallIdSet;
use crate::config;
use crate::config::{AblationProfile, EnhancedRuntimeFeatures};
use crate::context_projection::{
    ContextProjectionStore, ContextProjectionStoreView, DurableProjectionStore,
};
use crate::context_pruner::{ModelVisibleSurface, ModelVisibleSurfaceView};
use crate::hooks::{EnhancedTurnHooks, EnhancedTurnHooksView};
use crate::telemetry;
use crate::telemetry::{
    EnhancedEvent, EnhancedEventFields, EnhancedEventFieldsView, EnhancedEventKind,
    EnhancedEventView, MemoryTelemetry,
};
use vstd::prelude::*;

verus! {

/// What the configuration file says of the switches.
#[derive(Debug, PartialEq, Eq)]
pub struct EnhancedRuntimeFile {
    /// The name of a profile.
    pub ablation_profile: Option<String>,
    pub feature_flags: Option<EnhancedRuntimeFeatures>,
    pub compiled_feature_defaults: Option<EnhancedRuntimeFeatures>,
}

/// The model of [`EnhancedRuntimeFile`].
#[verifier::ext_equal]
pub struct EnhancedRuntimeFileView {
    pub ablation_profile: Option<Seq<char>>,
    pub feature_flags: Option<EnhancedRuntimeFeatures>,
    pub compiled_feature_defaults: Option<EnhancedRuntimeFeatures>,
}

impl View for EnhancedRuntimeFile {
    type V = EnhancedRuntimeFileView;

    open spec fn view(&self) -> EnhancedRuntimeFileView {
        EnhancedRuntimeFileView {
            ablation_profile: self.ablation_profile.deep_view(),
            feature_flags: self.feature_flags,
            compiled_feature_defaults: self.compiled_feature_defaults,
        }
    }
}

impl DeepView for EnhancedRuntimeFile {
    type V = EnhancedRuntimeFileView;

    open spec fn deep_view(&self) -> EnhancedRuntimeFileView {
        self@
    }
}

impl Clone for EnhancedRuntimeFile {
    fn clone(&self) -> (r: Self)
        ensures
            r@ == self@,
    {
        EnhancedRuntimeFile {
            ablation_profile: self.ablation_profile.clone(),
            feature_flags: self.feature_flags,
            compiled_feature_defaults: self.compiled_feature_defaults,
        }
    }
}

/// Where the switches may come from.
#[derive(Debug, PartialEq, Eq)]
pub struct FeatureSources {
    /// The name of a profile, from the environment.
    pub ablation_profile: Option<String>,
    /// The switches, from the environment, if they could be decoded.
    pub feature_profile: Option<EnhancedRuntimeFeatures>,
    /// The configuration file, if it is there and could be decoded.
    pub file: Option<EnhancedRuntimeFile>,
}

/// The model of [`FeatureSources`].
#[verifier::ext_equal]
pub struct FeatureSourcesView {
    pub ablation_profile: Option<Seq<char>>,
    pub feature_profile: Option<EnhancedRuntimeFeatures>,
    pub file: Option<EnhancedRuntimeFileView>,
}

impl View for FeatureSources {
    type V = FeatureSourcesView;

    open spec fn view(&self) -> FeatureSourcesView {
        FeatureSourcesView {
            ablation_profile: self.ablation_profile.deep_view(),
            feature_profile: self.feature_profile,
            file: self.file.deep_view(),
        }
    }
}

impl DeepView for FeatureSources {
    type V = FeatureSourcesView;

    open spec fn deep_view(&self) -> FeatureSourcesView {
        self@
    }
}

impl Clone for FeatureSources {
    fn clone(&self) -> (r: Self)
        ensures
            r@ == self@,
    {
        FeatureSources {
            ablation_profile: self.ablation_profile.clone(),
            feature_profile: self.feature_profile,
            file: self.file.clone(),
        }
    }
}

/// The switches of the profile with a name, if there is such a profile.
pub open spec fn named_features(name: Option<Seq<char>>) -> Option<EnhancedRuntimeFeatures> {
    match name {
        Some(n) => match AblationProfile::named(n) {
            Some(profile) => Some(profile.switches()),
            None => None,
        },
        None => None,
    }
}

impl EnhancedRuntimeFileView {
    /// The switches that a configuration file asks for: those of its profile,
    /// else its own, else the defaults of the build. Without any of these every
    /// switch is off.
    pub open spec fn features(self) -> EnhancedRuntimeFeatures {
        match named_features(self.ablation_profile) {
            Some(features) => features,
            None => match self.feature_flags {
                Some(features) => features,
                None => match self.compiled_feature_defaults {
                    Some(features) => features,
                    None => EnhancedRuntimeFeatures::ports(false, false, false),
                },
            },
        }
    }
}

impl FeatureSourcesView {
    /// The switches that all sources together ask for. The environment goes
    /// before the configuration file, a profile before single switches.
    pub open spec fn features(self) -> EnhancedRuntimeFeatures {
        match named_features(self.ablation_profile) {
            Some(features) => features,
            None => match self.feature_profile {
                Some(features) => features,
                None => match self.file {
                    Some(file) => file.features(),
                    None => EnhancedRuntimeFeatures::ports(false, false, false),
                },
            },
        }
    }
}

/// The switches of the profile with a name, if there is such a profile.
fn features_named(name: &Option<String>) -> (r: Option<EnhancedRuntimeFeatures>)
    ensures
        r == named_features(name.deep_view()),
{
    match name {
        Some(n) => match AblationProfile::parse(n.as_str()) {
            Some(profile) => Some(profile.features()),
            None => None,
        },
        None => None,
    }
}

/// The switches that all sources together ask for.
pub fn load_features(sources: &FeatureSources) -> (r: EnhancedRuntimeFeatures)
    ensures
        r == sources@.features(),
{
    if let Some(features) = features_named(&sources.ablation_profile) {
        return features;
    }
    if let Some(features) = sources.feature_profile {
        return features;
    }
    match &sources.file {
        Some(file) => {
            if let Some(features) = features_named(&file.ablation_profile) {
                return features;
            }
            if let Some(features) = file.feature_flags {
                return features;
            }
            match file.compiled_feature_defaults {
                Some(features) => features,
                None => EnhancedRuntimeFeatures::all_off(),
            }
        },
        None => EnhancedRuntimeFeatures::all_off(),
    }
}

/// The runtime of a session.
#[derive(Debug)]
pub struct EnhancedSessionRuntime {
    pub hooks: EnhancedTurnHooks,
    pub telemetry: MemoryTelemetry,
    /// The surface after the last check for pressure.
    pub last_surface: Option<ModelVisibleSurface>,
    /// The continuation whose request is under way.
    pub pending_continuation: Option<ReservedContinuation>,
    /// The ledger was filled from the history.
    pub ledger_restored: bool,
    pub context_projections: ContextProjectionStore,
    /// The calls whose results are to bear the notice of a repetition.
    pub pending_repetition_notices: CallIdSet,
    /// The notice of a repetition is to stand by itself.
    pub pending_standalone_repetition_notice: bool,
}

/// The model of [`EnhancedSessionRuntime`].
#[verifier::ext_equal]
pub struct EnhancedSessionRuntimeView {
    pub hooks: EnhancedTurnHooksView,
    pub telemetry: Seq<EnhancedEventView>,
    pub last_surface: Option<ModelVisibleSurfaceView>,
    pub pending_continuation: Option<ReservedContinuation>,
    pub ledger_restored: bool,
    pub context_projections: ContextProjectionStoreView,
    pub pending_repetition_notices: Set<Seq<char>>,
    pub pending_standalone_repetition_notice: bool,
}

impl View for EnhancedSessionRuntime {
    type V = EnhancedSessionRuntimeView;

    open spec fn view(&self) -> EnhancedSessionRuntimeView {
        EnhancedSessionRuntimeView {
            hooks: self.hooks@,
            telemetry: self.telemetry@,
            last_surface: self.last_surface.deep_view(),
            pending_continuation: self.pending_continuation,
            ledger_restored: self.ledger_restored,
            context_projections: self.context_projections@,
            pending_repetition_notices: self.pending_repetition_notices@,
            pending_standalone_repetition_notice: self.pending_standalone_repetition_notice,
        }
    }
}

impl EnhancedSessionRuntimeView {
    /// A runtime to which nothing has happened.
    pub open spec fn fresh(
        features: EnhancedRuntimeFeatures,
        projections: ContextProjectionStoreView,
    ) -> Self {
        EnhancedSessionRuntimeView {
            hooks: EnhancedTurnHooksView::fresh(features),
            telemetry: seq![],
            last_surface: None,
            pending_continuation: None,
            ledger_restored: false,
            context_projections: projections,
            pending_repetition_notices: Set::empty(),
            pending_standalone_repetition_notice: false,
        }
    }
}

/// The report of the switches that a session starts with.
pub open spec fn features_event(features: EnhancedRuntimeFeatures) -> EnhancedEventView {
    telemetry::event(
        EnhancedEventKind::SessionFeaturesApplied,
        EnhancedEventFieldsView {
            feature_profile: Some(config::label(features)),
            ..EnhancedEventFieldsView::none()
        },
    )
}

impl EnhancedSessionRuntime {
    /// The runtime of a session that begins with some switches and with what an
    /// earlier process left of its context projections. Its first event, which
    /// has to be published, tells the switches.
    pub fn load(
        features: EnhancedRuntimeFeatures,
        projections: Option<DurableProjectionStore>,
    ) -> (r: Self)
        ensures
            r@ == (EnhancedSessionRuntimeView {
                telemetry: seq![features_event(features)],
                ..EnhancedSessionRuntimeView::fresh(
                    features,
                    ContextProjectionStoreView::started(projections.deep_view()),
                )
            }),
    {
        let mut telemetry = MemoryTelemetry::default();
        telemetry.emit(
            EnhancedEvent::new(
                EnhancedEventKind::SessionFeaturesApplied,
                EnhancedEventFields {
                    feature_profile: Some(config::features_label(features).to_owned()),
                    ..EnhancedEventFields::default()
                },
            ),
        );
        assert(telemetry@ =~= seq![features_event(features)]);
        EnhancedSessionRuntime {
            hooks: EnhancedTurnHooks::new(features),
            telemetry,
            last_surface: None,
            pending_continuation: None,
            ledger_restored: false,
            context_projections: ContextProjectionStore::load(projections),
            pending_repetition_notices: CallIdSet::new(),
            pending_standalone_repetition_notice: false,
        }
    }

    /// A runtime with every switch off.
    pub fn all_off() -> (r: Self)
        ensures
            r@ == EnhancedSessionRuntimeView::fresh(
                EnhancedRuntimeFeatures::ports(false, false, false),
                ContextProjectionStoreView::empty(),
            ),
    {
        EnhancedSessionRuntime {
            hooks: EnhancedTurnHooks::new(EnhancedRuntimeFeatures::all_off()),
            telemetry: MemoryTelemetry::default(),
            last_surface: None,
            pending_continuation: None,
            ledger_restored: false,
            context_projections: ContextProjectionStore::in_memory(),
            pending_repetition_notices: CallIdSet::new(),
            pending_standalone_repetition_notice: false,
        }
    }
}

/// Where nothing is configured, or nothing that can be read, every switch is off.
pub proof fn law_nothing_configured_is_all_off(sources: FeatureSourcesView)
    requires
        named_features(sources.ablation_profile) is None,
        sources.feature_profile is None,
        sources.file matches Some(file) ==> named_features(file.ablation_profile) is None
            && file.feature_flags is None && file.compiled_feature_defaults is None,
    ensures
        sources.features() == EnhancedRuntimeFeatures::ports(false, false, false),
{
}

/// A profile that the environment names wins over everything else.
pub proof fn law_named_profile_wins(sources: FeatureSourcesView, profile: AblationProfile)
    requires
        sources.ablation_profile == Some(profile.name()),
    ensures
        sources.features() == profile.switches(),
{
    config::law_profile_names(profile);
}

/// What is configured counts in this order: the profile that the environment names,
/// the switches that it gives, the profile that the file names, the switches that it
/// gives, and its compiled defaults. A name that names no profile counts as none.
pub proof fn law_nearer_configuration_wins(
    sources: FeatureSourcesView,
    file: EnhancedRuntimeFileView,
    given: EnhancedRuntimeFeatures,
)
    ensures
        ({
            let unnamed = sources.ablation_profile matches Some(name) ==> AblationProfile::named(
                name,
            ) is None;
            let file_unnamed = file.ablation_profile matches Some(name) ==> AblationProfile::named(
                name,
            ) is None;
            let file_only = sources.feature_profile is None && sources.file == Some(file);
            &&& unnamed && sources.feature_profile == Some(given) ==> sources.features() == given
            &&& unnamed && file_only && !file_unnamed ==> (file.ablation_profile matches Some(
                name,
            ) && (AblationProfile::named(name) matches Some(profile) && sources.features()
                == profile.switches()))
            &&& unnamed && file_only && file_unnamed && file.feature_flags == Some(given)
                ==> sources.features() == given
            &&& unnamed && file_only && file_unnamed && file.feature_flags is None
                && file.compiled_feature_defaults == Some(given) ==> sources.features() == given
        }),
{
}

/// A session begins with nothing pending, nothing shown and nothing reported but its
/// switches.
pub proof fn law_sessions_begin_with_their_switches(
    features: EnhancedRuntimeFeatures,
    projections: ContextProjectionStoreView,
)
    ensures
        ({
            let runtime = EnhancedSessionRuntimeView::fresh(features, projections);
            &&& runtime.hooks.features == features
            &&& runtime.context_projections == projections
            &&& runtime.telemetry.len() == 0
            &&& runtime.last_surface is None
            &&& runtime.pending_continuation is None
            &&& !runtime.ledger_restored
            &&& runtime.pending_repetition_notices == Set::<Seq<char>>::empty()
            &&& !runtime.pending_standalone_repetition_notice
        }),
        features_event(features).kind == EnhancedEventKind::SessionFeaturesApplied,
        features_event(features).fields.feature_profile == Some(config::label(features)),
{
}

} // verus!
