//! Which events are reported, to whom, and how the runtime introduces itself.

use crate::config;
use crate::config::EnhancedRuntimeFeatures;
use crate::debug_log::{LogPath, LogPathView};
use crate::notifications;
use crate::notifications::{Notification, NotificationView};
use crate::telemetry::{EnhancedEvent, EnhancedEventView, MemoryTelemetry};
use crate::text;
use vstd::prelude::*;

verus! {

/// The execution plane of the processes that report.
pub const ENHANCED_PLANE: &'static str = "enhanced-codex";

/// What the environment of the process says.
#[derive(Debug, PartialEq, Eq)]
pub struct ReportingEnvironment {
    /// The execution plane.
    pub plane: Option<String>,
    /// The digest of the runtime.
    pub digest: Option<String>,
    /// The commit of the runtime.
    pub commit: Option<String>,
    /// The configured switches, if the directory of the configuration is known.
    pub features: Option<EnhancedRuntimeFeatures>,
}

/// The model of [`ReportingEnvironment`].
#[verifier::ext_equal]
pub struct ReportingEnvironmentView {
    pub plane: Option<Seq<char>>,
    pub digest: Option<Seq<char>>,
    pub commit: Option<Seq<char>>,
    pub features: Option<EnhancedRuntimeFeatures>,
}

impl View for ReportingEnvironment {
    type V = ReportingEnvironmentView;

    open spec fn view(&self) -> ReportingEnvironmentView {
        ReportingEnvironmentView {
            plane: self.plane.deep_view(),
            digest: self.digest.deep_view(),
            commit: self.commit.deep_view(),
            features: self.features,
        }
    }
}

impl DeepView for ReportingEnvironment {
    type V = ReportingEnvironmentView;

    open spec fn deep_view(&self) -> ReportingEnvironmentView {
        self@
    }
}

impl Clone for ReportingEnvironment {
    fn clone(&self) -> (r: Self)
        ensures
            r@ == self@,
    {
        ReportingEnvironment {
            plane: self.plane.clone(),
            digest: self.digest.clone(),
            commit: self.commit.clone(),
            features: self.features,
        }
    }
}

/// What is done about one event.
#[derive(Debug, PartialEq, Eq)]
pub struct Report {
    /// What is written to the log of events, in this order.
    pub log: Vec<Notification>,
    /// What is sent to those who listen.
    pub send: Option<Notification>,
}

/// The model of [`Report`].
#[verifier::ext_equal]
pub struct ReportView {
    pub log: Seq<NotificationView>,
    pub send: Option<NotificationView>,
}

impl View for Report {
    type V = ReportView;

    open spec fn view(&self) -> ReportView {
        ReportView {
            log: self.log.deep_view(),
            send: self.send.deep_view(),
        }
    }
}

impl DeepView for Report {
    type V = ReportView;

    open spec fn deep_view(&self) -> ReportView {
        self@
    }
}

impl Clone for Report {
    fn clone(&self) -> (r: Self)
        ensures
            r@ == self@,
    {
        Report {
            log: self.log.clone(),
            send: self.send.clone(),
        }
    }
}

impl ReportingEnvironmentView {
    /// Whether the process reports at all.
    pub open spec fn enhanced(self) -> bool {
        self.plane == Some(ENHANCED_PLANE@)
    }

    /// The configured switches.
    pub open spec fn configured(self) -> EnhancedRuntimeFeatures {
        match self.features {
            Some(features) => features,
            None => EnhancedRuntimeFeatures::ports(false, false, false),
        }
    }

    /// How the runtime introduces itself, if the process reports and the digest
    /// and the commit are given.
    pub open spec fn identity(self) -> Option<NotificationView> {
        match (self.digest, self.commit) {
            (Some(digest), Some(commit)) => if self.enhanced() && !text::is_blank(digest)
                && !text::is_blank(commit) {
                Some(
                    NotificationView::Identity {
                        enhanced_commit: text::trimmed(commit),
                        runtime_digest: text::trimmed(digest),
                        feature_profile: config::label(self.configured()),
                        ports: notifications::reported_ports(self.configured()),
                    },
                )
            } else {
                None
            },
            _ => None,
        }
    }

    /// What is done about an event. The log begins with the introduction.
    pub open spec fn report(self, event: EnhancedEventView, identity_logged: bool) -> ReportView {
        if self.enhanced() {
            let notification = notifications::event_report(event);
            ReportView {
                log: match self.identity() {
                    Some(identity) if !identity_logged => seq![identity, notification],
                    _ => seq![notification],
                },
                send: Some(notification),
            }
        } else {
            ReportView { log: seq![], send: None }
        }
    }

    /// What is done about a row of events.
    pub open spec fn reports(
        self,
        events: Seq<EnhancedEventView>,
        identity_logged: bool,
    ) -> Seq<ReportView> {
        Seq::new(events.len(), |i: int| self.report(events[i], identity_logged || i > 0))
    }
}

/// Tells whether the process reports at all.
pub fn is_enhanced_process(plane: &Option<String>) -> (r: bool)
    ensures
        r == (plane.deep_view() == Some(ENHANCED_PLANE@)),
{
    match plane {
        Some(value) => text::same_text(value.as_str(), ENHANCED_PLANE),
        None => false,
    }
}

/// The switches that are configured; every one is off where none is.
pub fn configured_features(features: Option<EnhancedRuntimeFeatures>) -> (r:
    EnhancedRuntimeFeatures)
    ensures
        r == (match features {
            Some(given) => given,
            None => EnhancedRuntimeFeatures::ports(false, false, false),
        }),
{
    match features {
        Some(given) => given,
        None => EnhancedRuntimeFeatures::all_off(),
    }
}

/// How the runtime introduces itself, from what the environment says.
pub fn identity_from_environment(environment: &ReportingEnvironment) -> (r: Option<Notification>)
    ensures
        r.deep_view() == environment@.identity(),
{
    if !is_enhanced_process(&environment.plane) {
        return None;
    }
    match (&environment.digest, &environment.commit) {
        (Some(digest), Some(commit)) => {
            if text::blank(digest.as_str()) || text::blank(commit.as_str()) {
                return None;
            }
            let digest = text::trim_text(digest.as_str());
            let commit = text::trim_text(commit.as_str());
            let features = configured_features(environment.features);
            Some(
                notifications::identity_notification(
                    commit.as_str(),
                    digest.as_str(),
                    config::features_label(features),
                    features,
                ),
            )
        },
        _ => None,
    }
}

/// Decides what is done about an event. `identity_logged` tells whether the
/// introduction was due before; it is due once, with the first event.
pub fn publish_event(
    event: &EnhancedEvent,
    environment: &ReportingEnvironment,
    identity_logged: &mut bool,
) -> (r: Report)
    ensures
        r@ == environment@.report(event@, *old(identity_logged)),
        *final(identity_logged) == (*old(identity_logged) || environment@.enhanced()),
{
    let mut log: Vec<Notification> = Vec::new();
    if !is_enhanced_process(&environment.plane) {
        assert(log.deep_view() =~= seq![]);
        return Report { log, send: None };
    }
    if !*identity_logged {
        *identity_logged = true;
        if let Some(identity) = identity_from_environment(environment) {
            log.push(identity);
        }
    }
    let notification = notifications::event_notification(event);
    log.push(notification.clone());
    assert(log.deep_view() =~= environment@.report(event@, *old(identity_logged)).log);
    Report { log, send: Some(notification) }
}

/// Decides what is done about the events from position `start` on.
pub fn log_new_events(
    telemetry: &MemoryTelemetry,
    start: usize,
    environment: &ReportingEnvironment,
    identity_logged: &mut bool,
) -> (r: Vec<Report>)
    ensures
        start <= telemetry@.len() ==> r.deep_view() == environment@.reports(
            telemetry@.skip(start as int),
            *old(identity_logged),
        ),
        start > telemetry@.len() ==> r.len() == 0,
        *final(identity_logged) == (*old(identity_logged) || (environment@.enhanced() && start
            < telemetry@.len())),
{
    let ghost events = telemetry@.skip(start as int);
    let ghost logged = *identity_logged;
    let mut out: Vec<Report> = Vec::new();
    if start > telemetry.events.len() {
        return out;
    }
    let mut i: usize = start;
    while i < telemetry.events.len()
        invariant
            start <= i <= telemetry.events.len(),
            events == telemetry@.skip(start as int),
            *identity_logged == (logged || (environment@.enhanced() && i > start)),
            out.deep_view() =~= environment@.reports(events, logged).take(i - start),
        decreases telemetry.events.len() - i,
    {
        let ghost before = out.deep_view();
        assert(events[i - start] == telemetry.events@[i as int]@);
        let report = publish_event(&telemetry.events[i], environment, identity_logged);
        out.push(report);
        assert(out.deep_view() =~= before.push(report@));
        i = i + 1;
    }
    assert(out.deep_view() =~= environment@.reports(events, logged));
    out
}

/// The path of the log of events that can be used of one that is given.
pub open spec fn usable_path(given: Option<LogPathView>) -> Option<LogPathView> {
    match given {
        Some(path) if path.absolute => Some(path),
        _ => None,
    }
}

/// The path of the log of events, which has to be absolute.
pub fn event_log_path(given: Option<LogPath>) -> (r: Option<LogPath>)
    ensures
        r == (match given {
            Some(path) if path.absolute => Some(path),
            _ => None,
        }),
        r.deep_view() == usable_path(given.deep_view()),
{
    match given {
        Some(path) => if path.absolute {
            Some(path)
        } else {
            None
        },
        None => None,
    }
}

/// Nobody hears of anything outside the enhanced plane, and inside it everybody
/// who listens hears exactly what the log holds of the event.
pub proof fn law_reports_stay_in_their_plane(
    environment: ReportingEnvironmentView,
    event: EnhancedEventView,
    identity_logged: bool,
)
    ensures
        ({
            let report = environment.report(event, identity_logged);
            &&& !environment.enhanced() ==> report.log.len() == 0 && report.send is None
                && environment.identity() is None
            &&& environment.enhanced() ==> report.log.len() > 0 && report.send == Some(
                report.log.last(),
            ) && report.send == Some(notifications::event_report(event))
        }),
{
}

/// The runtime introduces itself at most once, before everything else that the
/// log holds.
pub proof fn law_introduction_comes_first(
    environment: ReportingEnvironmentView,
    events: Seq<EnhancedEventView>,
    identity_logged: bool,
    i: int,
)
    requires
        0 <= i < events.len(),
    ensures
        ({
            let report = environment.reports(events, identity_logged)[i];
            &&& report.log.len() <= 2
            &&& report.log.len() == 2 ==> i == 0 && !identity_logged && Some(report.log[0])
                == environment.identity()
        }),
{
}

/// A process introduces itself exactly where it runs on the enhanced plane and both its
/// digest and its commit are known. It tells both without the white space around them,
/// the name of its switches, and its ports.
pub proof fn law_only_a_known_runtime_introduces_itself(environment: ReportingEnvironmentView)
    ensures
        environment.enhanced() <==> environment.plane == Some("enhanced-codex"@),
        environment.identity() is Some <==> environment.plane == Some("enhanced-codex"@) && (
        environment.digest matches Some(digest) && !text::is_blank(digest)) && (
        environment.commit matches Some(commit) && !text::is_blank(commit)),
        environment.identity() matches Some(told) ==> {
            let features = match environment.features {
                Some(given) => given,
                None => EnhancedRuntimeFeatures::ports(false, false, false),
            };
            told == (NotificationView::Identity {
                enhanced_commit: text::trimmed(environment.commit->0),
                runtime_digest: text::trimmed(environment.digest->0),
                feature_profile: config::label(features),
                ports: notifications::reported_ports(features),
            })
        },
{
}

/// Every event is reported, in order, and the introduction goes before the first report
/// that there is.
pub proof fn law_every_event_is_reported(
    environment: ReportingEnvironmentView,
    events: Seq<EnhancedEventView>,
    identity_logged: bool,
    i: int,
)
    requires
        0 <= i < events.len(),
        environment.plane == Some("enhanced-codex"@),
    ensures
        ({
            let reports = environment.reports(events, identity_logged);
            &&& reports.len() == events.len()
            &&& reports[i].send == Some(notifications::event_report(events[i]))
            &&& reports[i].log.last() == notifications::event_report(events[i])
            &&& i == 0 && !identity_logged && environment.identity() is Some
                ==> reports[i].log.len() == 2 && Some(reports[i].log[0])
                == environment.identity()
            &&& i > 0 || identity_logged ==> reports[i].log.len() == 1
        }),
{
}

/// The log of events is kept only at an absolute path, and at that path.
pub proof fn law_the_event_log_needs_an_absolute_path(given: LogPathView)
    ensures
        given.absolute ==> usable_path(Some(given)) == Some(given),
        !given.absolute ==> usable_path(Some(given)) is None,
        usable_path(None) is None,
{
}

} // verus!
