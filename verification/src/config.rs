//! Which of the runtime's ports are switched on.

use crate::text;
use vstd::prelude::*;

verus! {

/// The switches of the runtime. Every port is gated on its own.
#[derive(Debug, Clone, Copy, PartialEq, Eq, Structural)]
pub struct EnhancedRuntimeFeatures {
    pub qwen_tool_reliability: bool,
    pub deepseek_context_recovery: bool,
    pub qwen_bounded_continuation: bool,
    /// Experiment: tell the model that it repeats itself.
    pub repetition_notice: bool,
    /// Experiment: continue when the final text says that work goes on.
    pub intent_continuation: bool,
}

impl EnhancedRuntimeFeatures {
    /// The three ports as given, both experiments off.
    pub open spec fn ports(tools: bool, context: bool, continuation: bool) -> Self {
        EnhancedRuntimeFeatures {
            qwen_tool_reliability: tools,
            deepseek_context_recovery: context,
            qwen_bounded_continuation: continuation,
            repetition_notice: false,
            intent_continuation: false,
        }
    }

    /// Every switch off.
    pub fn all_off() -> (r: Self)
        ensures
            r == Self::ports(false, false, false),
    {
        EnhancedRuntimeFeatures {
            qwen_tool_reliability: false,
            deepseek_context_recovery: false,
            qwen_bounded_continuation: false,
            repetition_notice: false,
            intent_continuation: false,
        }
    }

    /// Every switch on.
    pub fn all_on() -> (r: Self)
        ensures
            r.qwen_tool_reliability,
            r.deepseek_context_recovery,
            r.qwen_bounded_continuation,
            r.repetition_notice,
            r.intent_continuation,
    {
        EnhancedRuntimeFeatures {
            qwen_tool_reliability: true,
            deepseek_context_recovery: true,
            qwen_bounded_continuation: true,
            repetition_notice: true,
            intent_continuation: true,
        }
    }

    /// Tells whether any switch is on.
    pub fn any_enabled(&self) -> (r: bool)
        ensures
            r == (*self != Self::ports(false, false, false)),
    {
        self.qwen_tool_reliability || self.deepseek_context_recovery
            || self.qwen_bounded_continuation || self.repetition_notice || self.intent_continuation
    }
}

/// The named combinations of ports that are compared with each other.
#[derive(Debug, Clone, Copy, PartialEq, Eq, Structural)]
pub enum AblationProfile {
    E0,
    E1,
    E2,
    E3,
    E4,
    E5,
}

impl AblationProfile {
    /// The name under which a profile is configured and reported.
    pub open spec fn name(self) -> Seq<char> {
        match self {
            AblationProfile::E0 => "E0"@,
            AblationProfile::E1 => "E1"@,
            AblationProfile::E2 => "E2"@,
            AblationProfile::E3 => "E3"@,
            AblationProfile::E4 => "E4"@,
            AblationProfile::E5 => "E5"@,
        }
    }

    /// The switches that a profile stands for.
    pub open spec fn switches(self) -> EnhancedRuntimeFeatures {
        match self {
            AblationProfile::E0 => EnhancedRuntimeFeatures::ports(false, false, false),
            AblationProfile::E1 => EnhancedRuntimeFeatures::ports(true, false, false),
            AblationProfile::E2 => EnhancedRuntimeFeatures::ports(false, true, false),
            AblationProfile::E3 => EnhancedRuntimeFeatures::ports(false, false, true),
            AblationProfile::E4 => EnhancedRuntimeFeatures::ports(true, true, false),
            AblationProfile::E5 => EnhancedRuntimeFeatures::ports(true, true, true),
        }
    }

    /// The profile that a text names, if it names one.
    pub open spec fn named(value: Seq<char>) -> Option<AblationProfile> {
        if value == "E0"@ {
            Some(AblationProfile::E0)
        } else if value == "E1"@ {
            Some(AblationProfile::E1)
        } else if value == "E2"@ {
            Some(AblationProfile::E2)
        } else if value == "E3"@ {
            Some(AblationProfile::E3)
        } else if value == "E4"@ {
            Some(AblationProfile::E4)
        } else if value == "E5"@ {
            Some(AblationProfile::E5)
        } else {
            None
        }
    }

    /// Reads a profile from its name.
    pub fn parse(value: &str) -> (r: Option<AblationProfile>)
        ensures
            r == Self::named(value@),
    {
        if text::same_text(value, "E0") {
            Some(AblationProfile::E0)
        } else if text::same_text(value, "E1") {
            Some(AblationProfile::E1)
        } else if text::same_text(value, "E2") {
            Some(AblationProfile::E2)
        } else if text::same_text(value, "E3") {
            Some(AblationProfile::E3)
        } else if text::same_text(value, "E4") {
            Some(AblationProfile::E4)
        } else if text::same_text(value, "E5") {
            Some(AblationProfile::E5)
        } else {
            None
        }
    }

    /// The name of the profile.
    pub fn as_str(self) -> (r: &'static str)
        ensures
            r@ == self.name(),
    {
        match self {
            AblationProfile::E0 => "E0",
            AblationProfile::E1 => "E1",
            AblationProfile::E2 => "E2",
            AblationProfile::E3 => "E3",
            AblationProfile::E4 => "E4",
            AblationProfile::E5 => "E5",
        }
    }

    /// The switches of the profile.
    pub fn features(self) -> (r: EnhancedRuntimeFeatures)
        ensures
            r == self.switches(),
    {
        let mut features = EnhancedRuntimeFeatures::all_off();
        match self {
            AblationProfile::E0 => {},
            AblationProfile::E1 => {
                features.qwen_tool_reliability = true;
            },
            AblationProfile::E2 => {
                features.deepseek_context_recovery = true;
            },
            AblationProfile::E3 => {
                features.qwen_bounded_continuation = true;
            },
            AblationProfile::E4 => {
                features.qwen_tool_reliability = true;
                features.deepseek_context_recovery = true;
            },
            AblationProfile::E5 => {
                features.qwen_tool_reliability = true;
                features.deepseek_context_recovery = true;
                features.qwen_bounded_continuation = true;
            },
        }
        features
    }
}

/// The label of a set of switches: the name of the profile that has just these
/// switches, or `custom` where none has.
pub open spec fn label(features: EnhancedRuntimeFeatures) -> Seq<char> {
    if features == AblationProfile::E0.switches() {
        AblationProfile::E0.name()
    } else if features == AblationProfile::E1.switches() {
        AblationProfile::E1.name()
    } else if features == AblationProfile::E2.switches() {
        AblationProfile::E2.name()
    } else if features == AblationProfile::E3.switches() {
        AblationProfile::E3.name()
    } else if features == AblationProfile::E4.switches() {
        AblationProfile::E4.name()
    } else if features == AblationProfile::E5.switches() {
        AblationProfile::E5.name()
    } else {
        "custom"@
    }
}

/// The label of a set of switches.
pub fn features_label(features: EnhancedRuntimeFeatures) -> (r: &'static str)
    ensures
        r@ == label(features),
{
    if features == AblationProfile::E0.features() {
        AblationProfile::E0.as_str()
    } else if features == AblationProfile::E1.features() {
        AblationProfile::E1.as_str()
    } else if features == AblationProfile::E2.features() {
        AblationProfile::E2.as_str()
    } else if features == AblationProfile::E3.features() {
        AblationProfile::E3.as_str()
    } else if features == AblationProfile::E4.features() {
        AblationProfile::E4.as_str()
    } else if features == AblationProfile::E5.features() {
        AblationProfile::E5.as_str()
    } else {
        "custom"
    }
}

/// Every profile is read back from its own name, and its switches are labelled
/// with that name.
pub proof fn law_profile_names(profile: AblationProfile)
    ensures
        AblationProfile::named(profile.name()) == Some(profile),
        label(profile.switches()) == profile.name(),
{
    reveal_strlit("E0");
    reveal_strlit("E1");
    reveal_strlit("E2");
    reveal_strlit("E3");
    reveal_strlit("E4");
    reveal_strlit("E5");
    assert("E0"@[1] == '0' && "E1"@[1] == '1' && "E2"@[1] == '2' && "E3"@[1] == '3' && "E4"@[1]
        == '4' && "E5"@[1] == '5');
}

/// Each profile turns on its ports and no experiment: the first none, then each port
/// alone, then tools with context, and last all three.
pub proof fn law_profiles_turn_on_their_ports(profile: AblationProfile)
    ensures
        ({
            let on = profile.switches();
            &&& on.qwen_tool_reliability <==> profile == AblationProfile::E1 || profile
                == AblationProfile::E4 || profile == AblationProfile::E5
            &&& on.deepseek_context_recovery <==> profile == AblationProfile::E2 || profile
                == AblationProfile::E4 || profile == AblationProfile::E5
            &&& on.qwen_bounded_continuation <==> profile == AblationProfile::E3 || profile
                == AblationProfile::E5
            &&& !on.repetition_notice
            &&& !on.intent_continuation
        }),
{
}

/// Only the name of a profile names it.
pub proof fn law_only_names_name_a_profile(value: Seq<char>)
    ensures
        AblationProfile::named(value) matches Some(profile) ==> profile.name() == value,
        AblationProfile::named(value) is None ==> value != "E0"@ && value != "E1"@ && value
            != "E2"@ && value != "E3"@ && value != "E4"@ && value != "E5"@,
{
}

/// Switches that belong to no profile are called custom.
pub proof fn law_other_switches_are_custom(features: EnhancedRuntimeFeatures)
    ensures
        features.repetition_notice || features.intent_continuation ==> label(features)
            == "custom"@,
        EnhancedRuntimeFeatures::ports(
            features.qwen_tool_reliability,
            features.deepseek_context_recovery,
            features.qwen_bounded_continuation,
        ) == (EnhancedRuntimeFeatures {
            repetition_notice: false,
            intent_continuation: false,
            ..features
        }),
{
}

/// Two ports that no profile turns on together, without the third, are called custom.
pub proof fn law_other_ports_are_custom(features: EnhancedRuntimeFeatures)
    requires
        features.qwen_bounded_continuation,
        features.qwen_tool_reliability != features.deepseek_context_recovery,
    ensures
        label(features) == "custom"@,
{
}

} // verus!
