//! The lock file that pins what a runtime is built from.

use crate::config::EnhancedRuntimeFeatures;
use crate::digest;
use crate::digest::{DigestError, DigestErrorView, DigestInputs, DigestInputsView};
use crate::text;
use vstd::prelude::*;

verus! {

/// The version of the lock file's form.
pub const LOCKFILE_SCHEMA_VERSION: u32 = 1;

/// The build profile of the runtime.
pub const BUILD_PROFILE_ENHANCED_MVP_V1: &'static str = "enhanced-mvp-v1";

/// The commit of Codex that the runtime is built from. Like the other pins it
/// does not follow any branch.
pub const CODEX_UPSTREAM_COMMIT: &'static str = "633ab199cfd724aa78013c006b27a2b3d049fc3b";

/// The commit of Qwen Code that the runtime draws on.
pub const QWEN_CODE_SOURCE_COMMIT: &'static str = "2b8f73c1e9cf8b355ec46c4623398c27b458b076";

/// The commit of the DeepSeek harness that the runtime draws on.
pub const DEEPSEEK_HARNESS_SOURCE_COMMIT: &'static str = "dd6322d604e00eec1ba5e0c8541159906a21094a";

/// The digest of the app server's schema.
pub const APP_SERVER_PROTOCOL_HASH: &'static str =
    "sha256:ed3876ba3f0d615256174caa177bfd10feb2e9925de692d01fe900adaacb887e";

/// What a runtime is built from. The last three pins come with its release.
#[derive(Debug, PartialEq, Eq)]
pub struct EnhancedRuntimeLockFile {
    pub schema_version: u32,
    pub codex_upstream_commit: String,
    pub enhanced_codex_commit: Option<String>,
    pub qwen_code_source_commit: String,
    pub deepseek_harness_source_commit: String,
    pub app_server_protocol_hash: String,
    pub build_profile: String,
    pub artifact_sha256: Option<String>,
    pub target_triple: Option<String>,
}

/// The model of [`EnhancedRuntimeLockFile`].
#[verifier::ext_equal]
pub struct EnhancedRuntimeLockFileView {
    pub schema_version: u32,
    pub codex_upstream_commit: Seq<char>,
    pub enhanced_codex_commit: Option<Seq<char>>,
    pub qwen_code_source_commit: Seq<char>,
    pub deepseek_harness_source_commit: Seq<char>,
    pub app_server_protocol_hash: Seq<char>,
    pub build_profile: Seq<char>,
    pub artifact_sha256: Option<Seq<char>>,
    pub target_triple: Option<Seq<char>>,
}

impl View for EnhancedRuntimeLockFile {
    type V = EnhancedRuntimeLockFileView;

    open spec fn view(&self) -> EnhancedRuntimeLockFileView {
        EnhancedRuntimeLockFileView {
            schema_version: self.schema_version,
            codex_upstream_commit: self.codex_upstream_commit@,
            enhanced_codex_commit: self.enhanced_codex_commit.deep_view(),
            qwen_code_source_commit: self.qwen_code_source_commit@,
            deepseek_harness_source_commit: self.deepseek_harness_source_commit@,
            app_server_protocol_hash: self.app_server_protocol_hash@,
            build_profile: self.build_profile@,
            artifact_sha256: self.artifact_sha256.deep_view(),
            target_triple: self.target_triple.deep_view(),
        }
    }
}

impl DeepView for EnhancedRuntimeLockFile {
    type V = EnhancedRuntimeLockFileView;

    open spec fn deep_view(&self) -> EnhancedRuntimeLockFileView {
        self@
    }
}

impl Clone for EnhancedRuntimeLockFile {
    fn clone(&self) -> (r: Self)
        ensures
            r@ == self@,
    {
        EnhancedRuntimeLockFile {
            schema_version: self.schema_version,
            codex_upstream_commit: self.codex_upstream_commit.clone(),
            enhanced_codex_commit: self.enhanced_codex_commit.clone(),
            qwen_code_source_commit: self.qwen_code_source_commit.clone(),
            deepseek_harness_source_commit: self.deepseek_harness_source_commit.clone(),
            app_server_protocol_hash: self.app_server_protocol_hash.clone(),
            build_profile: self.build_profile.clone(),
            artifact_sha256: self.artifact_sha256.clone(),
            target_triple: self.target_triple.clone(),
        }
    }
}

/// Why a lock file is not accepted.
#[derive(Debug, PartialEq, Eq)]
pub enum LockFileError {
    /// It is no JSON, or not of the right form.
    Json(String),
    UnsupportedSchema(u32),
    EmptyField(&'static str),
    /// The field follows a branch, or is no commit at all.
    FloatingRevision { field: &'static str, value: String },
    InvalidDigest { field: &'static str, value: String },
}

/// The model of [`LockFileError`].
#[verifier::ext_equal]
pub enum LockFileErrorView {
    Json(Seq<char>),
    UnsupportedSchema(u32),
    EmptyField(Seq<char>),
    FloatingRevision { field: Seq<char>, value: Seq<char> },
    InvalidDigest { field: Seq<char>, value: Seq<char> },
}

impl View for LockFileError {
    type V = LockFileErrorView;

    open spec fn view(&self) -> LockFileErrorView {
        match self {
            LockFileError::Json(message) => LockFileErrorView::Json(message@),
            LockFileError::UnsupportedSchema(version) => LockFileErrorView::UnsupportedSchema(
                *version,
            ),
            LockFileError::EmptyField(field) => LockFileErrorView::EmptyField(field@),
            LockFileError::FloatingRevision { field, value } => {
                LockFileErrorView::FloatingRevision { field: field@, value: value@ }
            },
            LockFileError::InvalidDigest { field, value } => {
                LockFileErrorView::InvalidDigest { field: field@, value: value@ }
            },
        }
    }
}

impl LockFileErrorView {
    /// The error in words.
    pub open spec fn words(self) -> Seq<char> {
        match self {
            LockFileErrorView::Json(message) => "lock file JSON is invalid: "@ + message,
            LockFileErrorView::UnsupportedSchema(version) => {
                "unsupported lock file schema version: "@ + text::decimal(version as nat)
            },
            LockFileErrorView::EmptyField(field) => "lock file field "@ + field + " is empty"@,
            LockFileErrorView::FloatingRevision { field, value } => "lock file field "@ + field
                + " must be a pinned git SHA, not "@ + value,
            LockFileErrorView::InvalidDigest { field, value } => "lock file field "@ + field
                + " must be a sha256 digest, not "@ + value,
        }
    }
}

impl LockFileError {
    /// The error in words.
    pub fn message(&self) -> (r: String)
        ensures
            r@ == self@.words(),
    {
        let mut out = String::new();
        match self {
            LockFileError::Json(message) => {
                out.append("lock file JSON is invalid: ");
                out.append(message.as_str());
            },
            LockFileError::UnsupportedSchema(version) => {
                out.append("unsupported lock file schema version: ");
                out.append(text::decimal_text(*version as u128).as_str());
            },
            LockFileError::EmptyField(field) => {
                out.append("lock file field ");
                out.append(field);
                out.append(" is empty");
            },
            LockFileError::FloatingRevision { field, value } => {
                out.append("lock file field ");
                out.append(field);
                out.append(" must be a pinned git SHA, not ");
                out.append(value.as_str());
            },
            LockFileError::InvalidDigest { field, value } => {
                out.append("lock file field ");
                out.append(field);
                out.append(" must be a sha256 digest, not ");
                out.append(value.as_str());
            },
        }
        assert(out@ =~= self@.words());
        out
    }
}

/// What is wrong with a pinned commit, if anything is.
pub open spec fn pin_fault(field: Seq<char>, value: Seq<char>) -> Option<LockFileErrorView> {
    if text::is_blank(value) {
        Some(LockFileErrorView::EmptyField(field))
    } else if !digest::is_git_sha(value) {
        Some(LockFileErrorView::FloatingRevision { field, value })
    } else {
        None
    }
}

/// Whether a text names a branch or a tag that moves.
pub open spec fn is_floating(value: Seq<char>) -> bool {
    value == "main"@ || value == "master"@ || value == "latest"@
}

impl EnhancedRuntimeLockFileView {
    /// The pins of the runtime before its release.
    pub open spec fn pins() -> Self {
        EnhancedRuntimeLockFileView {
            schema_version: LOCKFILE_SCHEMA_VERSION,
            codex_upstream_commit: CODEX_UPSTREAM_COMMIT@,
            enhanced_codex_commit: None,
            qwen_code_source_commit: QWEN_CODE_SOURCE_COMMIT@,
            deepseek_harness_source_commit: DEEPSEEK_HARNESS_SOURCE_COMMIT@,
            app_server_protocol_hash: APP_SERVER_PROTOCOL_HASH@,
            build_profile: BUILD_PROFILE_ENHANCED_MVP_V1@,
            artifact_sha256: None,
            target_triple: None,
        }
    }

    /// The first fault of a lock file. A commit or an artifact that is left blank
    /// is not released yet, which is no fault.
    pub open spec fn fault(self) -> Option<LockFileErrorView> {
        let upstream = pin_fault("codexUpstreamCommit"@, self.codex_upstream_commit);
        let qwen = pin_fault("qwenCodeSourceCommit"@, self.qwen_code_source_commit);
        let deepseek = pin_fault(
            "deepseekHarnessSourceCommit"@,
            self.deepseek_harness_source_commit,
        );
        let enhanced = match self.enhanced_codex_commit {
            Some(commit) if !text::is_blank(commit) => pin_fault("enhancedCodexCommit"@, commit),
            _ => None,
        };
        if self.schema_version != LOCKFILE_SCHEMA_VERSION {
            Some(LockFileErrorView::UnsupportedSchema(self.schema_version))
        } else if upstream is Some {
            upstream
        } else if qwen is Some {
            qwen
        } else if deepseek is Some {
            deepseek
        } else if enhanced is Some {
            enhanced
        } else if text::is_blank(self.app_server_protocol_hash) {
            Some(LockFileErrorView::EmptyField("appServerProtocolHash"@))
        } else if text::is_blank(self.build_profile) || is_floating(self.build_profile) {
            Some(
                LockFileErrorView::FloatingRevision {
                    field: "buildProfile"@,
                    value: self.build_profile,
                },
            )
        } else {
            match self.artifact_sha256 {
                Some(artifact) if !text::is_blank(artifact) && !digest::is_digest(artifact) => Some(
                    LockFileErrorView::InvalidDigest {
                        field: "artifactSha256"@,
                        value: artifact,
                    },
                ),
                _ => None,
            }
        }
    }

    /// Whether the lock file identifies a released runtime.
    pub open spec fn complete(self) -> bool {
        &&& self.enhanced_codex_commit matches Some(commit) && digest::is_git_sha(commit)
        &&& self.artifact_sha256 matches Some(artifact) && digest::is_digest(artifact)
        &&& self.target_triple matches Some(triple) && !text::is_blank(triple)
    }

    /// What the runtime digest is taken of, if the release is known.
    pub open spec fn inputs(
        self,
        features: EnhancedRuntimeFeatures,
        target_triple: Seq<char>,
    ) -> Result<DigestInputsView, DigestErrorView> {
        match self.enhanced_codex_commit {
            Some(commit) if commit.len() > 0 => match self.artifact_sha256 {
                Some(artifact) if artifact.len() > 0 => {
                    let inputs = DigestInputsView {
                        codex_upstream_commit: self.codex_upstream_commit,
                        enhanced_codex_commit: commit,
                        qwen_source_commit: self.qwen_code_source_commit,
                        deepseek_source_commit: self.deepseek_harness_source_commit,
                        feature_defaults: features,
                        app_server_protocol_hash: self.app_server_protocol_hash,
                        build_profile: self.build_profile,
                        target_triple,
                        artifact_sha256: artifact,
                    };
                    match inputs.fault() {
                        Some(fault) => Err(fault),
                        None => Ok(inputs),
                    }
                },
                _ => Err(DigestErrorView::Incomplete("artifactSha256"@)),
            },
            _ => Err(DigestErrorView::Incomplete("enhancedCodexCommit"@)),
        }
    }
}

/// Checks that a field holds a full commit hash.
fn require_git_sha(field: &'static str, value: &str) -> (r: Result<(), LockFileError>)
    ensures
        r is Ok <==> pin_fault(field@, value@) is None,
        r matches Err(e) ==> pin_fault(field@, value@) == Some(e@),
{
    if text::blank(value) {
        return Err(LockFileError::EmptyField(field));
    }
    if !digest::is_pinned_git_sha(value) {
        return Err(LockFileError::FloatingRevision { field, value: value.to_owned() });
    }
    Ok(())
}

/// A text that is there and not empty.
fn given(value: &Option<String>) -> (r: Option<&String>)
    ensures
        r.deep_view() == (match value.deep_view() {
            Some(t) if t.len() > 0 => Some(t),
            _ => None,
        }),
{
    match value {
        Some(t) => if t.as_str().unicode_len() > 0 {
            Some(t)
        } else {
            None
        },
        None => None,
    }
}

impl EnhancedRuntimeLockFile {
    /// The pins of the runtime before its release.
    pub fn mvp_pins() -> (r: Self)
        ensures
            r@ == EnhancedRuntimeLockFileView::pins(),
            r@.fault() is None,
            !r@.complete(),
    {
        proof {
            lemma_pins_are_accepted();
        }
        EnhancedRuntimeLockFile {
            schema_version: LOCKFILE_SCHEMA_VERSION,
            codex_upstream_commit: CODEX_UPSTREAM_COMMIT.to_owned(),
            enhanced_codex_commit: None,
            qwen_code_source_commit: QWEN_CODE_SOURCE_COMMIT.to_owned(),
            deepseek_harness_source_commit: DEEPSEEK_HARNESS_SOURCE_COMMIT.to_owned(),
            app_server_protocol_hash: APP_SERVER_PROTOCOL_HASH.to_owned(),
            build_profile: BUILD_PROFILE_ENHANCED_MVP_V1.to_owned(),
            artifact_sha256: None,
            target_triple: None,
        }
    }

    /// Accepts a lock file that was decoded from JSON. What could not be decoded
    /// comes as the decoder's message.
    pub fn parse(decoded: Result<Self, String>) -> (r: Result<Self, LockFileError>)
        ensures
            r is Ok <==> (decoded matches Ok(file) && file@.fault() is None),
            r matches Ok(file) ==> decoded matches Ok(given) && file == given,
            r matches Err(e) ==> match decoded {
                Ok(file) => file@.fault() == Some(e@),
                Err(message) => e@ == LockFileErrorView::Json(message@),
            },
    {
        match decoded {
            Ok(value) => {
                value.validate()?;
                Ok(value)
            },
            Err(message) => Err(LockFileError::Json(message)),
        }
    }

    /// Checks that everything is pinned: no field follows a branch, and a commit
    /// or an artifact that is given is a full hash.
    pub fn validate(&self) -> (r: Result<(), LockFileError>)
        ensures
            r is Ok <==> self@.fault() is None,
            r matches Err(e) ==> self@.fault() == Some(e@),
    {
        if self.schema_version != LOCKFILE_SCHEMA_VERSION {
            return Err(LockFileError::UnsupportedSchema(self.schema_version));
        }
        require_git_sha("codexUpstreamCommit", self.codex_upstream_commit.as_str())?;
        require_git_sha("qwenCodeSourceCommit", self.qwen_code_source_commit.as_str())?;
        require_git_sha(
            "deepseekHarnessSourceCommit",
            self.deepseek_harness_source_commit.as_str(),
        )?;
        if let Some(commit) = &self.enhanced_codex_commit {
            if !text::blank(commit.as_str()) {
                require_git_sha("enhancedCodexCommit", commit.as_str())?;
            }
        }
        if text::blank(self.app_server_protocol_hash.as_str()) {
            return Err(LockFileError::EmptyField("appServerProtocolHash"));
        }
        let profile = self.build_profile.as_str();
        if text::blank(profile) || text::same_text(profile, "main") || text::same_text(
            profile,
            "master",
        ) || text::same_text(profile, "latest") {
            return Err(
                LockFileError::FloatingRevision {
                    field: "buildProfile",
                    value: self.build_profile.clone(),
                },
            );
        }
        if let Some(artifact) = &self.artifact_sha256 {
            if !text::blank(artifact.as_str()) && !digest::is_sha256_digest(artifact.as_str()) {
                return Err(
                    LockFileError::InvalidDigest {
                        field: "artifactSha256",
                        value: artifact.clone(),
                    },
                );
            }
        }
        Ok(())
    }

    /// Tells whether the lock file identifies a released runtime.
    pub fn identity_complete(&self) -> (r: bool)
        ensures
            r == self@.complete(),
    {
        let pinned: bool = match &self.enhanced_codex_commit {
            Some(value) => digest::is_pinned_git_sha(value.as_str()),
            None => false,
        };
        let built: bool = match &self.artifact_sha256 {
            Some(value) => digest::is_sha256_digest(value.as_str()),
            None => false,
        };
        let targeted: bool = match &self.target_triple {
            Some(value) => !text::blank(value.as_str()),
            None => false,
        };
        pinned && built && targeted
    }

    /// What the runtime digest is taken of, for a target.
    pub fn digest_inputs(
        &self,
        feature_defaults: EnhancedRuntimeFeatures,
        target_triple: &str,
    ) -> (r: Result<DigestInputs, DigestError>)
        ensures
            match self@.inputs(feature_defaults, target_triple@) {
                Ok(inputs) => r matches Ok(given) && given@ == inputs,
                Err(fault) => r matches Err(e) && e@ == fault,
            },
    {
        let enhanced = match given(&self.enhanced_codex_commit) {
            Some(value) => value,
            None => {
                return Err(DigestError::Incomplete("enhancedCodexCommit"));
            },
        };
        let artifact = match given(&self.artifact_sha256) {
            Some(value) => value,
            None => {
                return Err(DigestError::Incomplete("artifactSha256"));
            },
        };
        let inputs = DigestInputs {
            codex_upstream_commit: self.codex_upstream_commit.clone(),
            enhanced_codex_commit: enhanced.clone(),
            qwen_source_commit: self.qwen_code_source_commit.clone(),
            deepseek_source_commit: self.deepseek_harness_source_commit.clone(),
            feature_defaults,
            app_server_protocol_hash: self.app_server_protocol_hash.clone(),
            build_profile: self.build_profile.clone(),
            target_triple: target_triple.to_owned(),
            artifact_sha256: artifact.clone(),
        };
        inputs.validate()?;
        Ok(inputs)
    }

    /// The digest that identifies the runtime, for a target.
    pub fn runtime_digest(
        &self,
        feature_defaults: EnhancedRuntimeFeatures,
        target_triple: &str,
    ) -> (r: Result<String, DigestError>)
        ensures
            match self@.inputs(feature_defaults, target_triple@) {
                Ok(inputs) => r matches Ok(value) && value@ == digest::text_digest(
                    inputs.canonical(),
                ),
                Err(fault) => r matches Err(e) && e@ == fault,
            },
    {
        let inputs = self.digest_inputs(feature_defaults, target_triple)?;
        digest::compute_runtime_digest(&inputs)
    }
}

/// The pins are accepted as they stand: each of them is a full hash. They do not
/// identify a released runtime.
proof fn lemma_pins_are_accepted()
    ensures
        EnhancedRuntimeLockFileView::pins().fault() is None,
        !EnhancedRuntimeLockFileView::pins().complete(),
{
    reveal_strlit("633ab199cfd724aa78013c006b27a2b3d049fc3b");
    reveal_strlit("2b8f73c1e9cf8b355ec46c4623398c27b458b076");
    reveal_strlit("dd6322d604e00eec1ba5e0c8541159906a21094a");
    reveal_strlit("sha256:ed3876ba3f0d615256174caa177bfd10feb2e9925de692d01fe900adaacb887e");
    reveal_strlit("enhanced-mvp-v1");
    reveal_strlit("main");
    reveal_strlit("master");
    reveal_strlit("latest");
    assert(digest::is_git_sha(CODEX_UPSTREAM_COMMIT@));
    lemma_sha_is_not_blank(CODEX_UPSTREAM_COMMIT@);
    assert(digest::is_git_sha(QWEN_CODE_SOURCE_COMMIT@));
    lemma_sha_is_not_blank(QWEN_CODE_SOURCE_COMMIT@);
    assert(digest::is_git_sha(DEEPSEEK_HARNESS_SOURCE_COMMIT@));
    lemma_sha_is_not_blank(DEEPSEEK_HARNESS_SOURCE_COMMIT@);
    assert(APP_SERVER_PROTOCOL_HASH@[0] == 's');
    assert(BUILD_PROFILE_ENHANCED_MVP_V1@[0] == 'e');
}

/// No branch and no revision that awaits its release counts as pinned.
pub proof fn law_floating_revisions_are_rejected(field: Seq<char>, value: Seq<char>)
    requires
        is_floating(value) || text::begins_with(value, "unreleased"@),
    ensures
        pin_fault(field, value) is Some,
{
    reveal_strlit("main");
    reveal_strlit("master");
    reveal_strlit("latest");
    reveal_strlit("unreleased");
    if !is_floating(value) {
        assert("unreleased"@[0] == 'u');
        assert(value[0] == 'u');
    }
}

/// A digest is formed only for a runtime whose commit is pinned and whose artifact
/// is known by its digest.
pub proof fn law_digest_needs_identity(
    lock: EnhancedRuntimeLockFileView,
    features: EnhancedRuntimeFeatures,
    target_triple: Seq<char>,
)
    requires
        lock.inputs(features, target_triple) is Ok,
    ensures
        lock.enhanced_codex_commit matches Some(commit) && digest::is_git_sha(commit),
        lock.artifact_sha256 matches Some(artifact) && digest::is_digest(artifact),
        !text::is_blank(target_triple),
        lock.target_triple == Some(target_triple) ==> lock.complete(),
{
}

/// A lock file that is accepted and complete forms a digest for its own target.
pub proof fn law_complete_identity_forms_a_digest(
    lock: EnhancedRuntimeLockFileView,
    features: EnhancedRuntimeFeatures,
)
    requires
        lock.fault() is None,
        lock.complete(),
    ensures
        lock.inputs(features, lock.target_triple->0) is Ok,
{
    lemma_sha_is_not_blank(lock.enhanced_codex_commit->0);
    lemma_digest_is_not_blank(lock.artifact_sha256->0);
}

proof fn lemma_sha_is_not_blank(value: Seq<char>)
    requires
        digest::is_git_sha(value),
    ensures
        !text::is_blank(value),
{
    assert(text::is_hex_digit(value[0]));
}

proof fn lemma_digest_is_not_blank(value: Seq<char>)
    requires
        digest::is_digest(value),
    ensures
        !text::is_blank(value),
{
    assert(text::is_hex_digit(value[7]));
}

/// A lock file is valid exactly where its form is known, its three sources are pinned to
/// commits, the commit of the runtime is one too if it is given, the protocol and the
/// profile are named, the profile by no floating name, and the artifact has a digest if
/// it is given.
pub proof fn law_lock_files_have_to_be_pinned(lock: EnhancedRuntimeLockFileView)
    ensures
        lock.fault() is None <==> {
            &&& lock.schema_version == 1
            &&& !text::is_blank(lock.codex_upstream_commit) && digest::is_git_sha(
                lock.codex_upstream_commit,
            )
            &&& !text::is_blank(lock.qwen_code_source_commit) && digest::is_git_sha(
                lock.qwen_code_source_commit,
            )
            &&& !text::is_blank(lock.deepseek_harness_source_commit) && digest::is_git_sha(
                lock.deepseek_harness_source_commit,
            )
            &&& lock.enhanced_codex_commit matches Some(commit) ==> text::is_blank(commit)
                || digest::is_git_sha(commit)
            &&& !text::is_blank(lock.app_server_protocol_hash)
            &&& !text::is_blank(lock.build_profile)
            &&& lock.build_profile != "main"@ && lock.build_profile != "master"@
                && lock.build_profile != "latest"@
            &&& lock.artifact_sha256 matches Some(artifact) ==> text::is_blank(artifact)
                || digest::is_digest(artifact)
        },
{
}

/// What a lock file lacks is named: an unknown form first, then a source that is blank
/// or floats, with what it says.
pub proof fn law_faults_are_named(lock: EnhancedRuntimeLockFileView)
    ensures
        lock.schema_version != 1 ==> lock.fault() == Some(
            LockFileErrorView::UnsupportedSchema(lock.schema_version),
        ),
        lock.schema_version == 1 && text::is_blank(lock.codex_upstream_commit) ==> lock.fault()
            == Some(LockFileErrorView::EmptyField("codexUpstreamCommit"@)),
        lock.schema_version == 1 && !text::is_blank(lock.codex_upstream_commit)
            && !digest::is_git_sha(lock.codex_upstream_commit) ==> lock.fault() == Some(
            LockFileErrorView::FloatingRevision {
                field: "codexUpstreamCommit"@,
                value: lock.codex_upstream_commit,
            },
        ),
{
}

/// An identity is complete exactly where the runtime's commit is pinned, the artifact
/// has a digest and the target is named. A digest is formed from just what the lock file
/// and the caller say.
pub proof fn law_the_digest_takes_what_is_locked(
    lock: EnhancedRuntimeLockFileView,
    features: EnhancedRuntimeFeatures,
    target_triple: Seq<char>,
)
    ensures
        lock.complete() <==> {
            &&& lock.enhanced_codex_commit matches Some(commit) && digest::is_git_sha(commit)
            &&& lock.artifact_sha256 matches Some(artifact) && digest::is_digest(artifact)
            &&& lock.target_triple matches Some(triple) && !text::is_blank(triple)
        },
        lock.inputs(features, target_triple) matches Ok(inputs) ==> {
            &&& inputs.codex_upstream_commit == lock.codex_upstream_commit
            &&& Some(inputs.enhanced_codex_commit) == lock.enhanced_codex_commit
            &&& inputs.qwen_source_commit == lock.qwen_code_source_commit
            &&& inputs.deepseek_source_commit == lock.deepseek_harness_source_commit
            &&& inputs.feature_defaults == features
            &&& inputs.app_server_protocol_hash == lock.app_server_protocol_hash
            &&& inputs.build_profile == lock.build_profile
            &&& inputs.target_triple == target_triple
            &&& Some(inputs.artifact_sha256) == lock.artifact_sha256
            &&& inputs.fault() is None
        },
        lock.enhanced_codex_commit is None ==> lock.inputs(features, target_triple) == Err::<
            DigestInputsView,
            DigestErrorView,
        >(DigestErrorView::Incomplete("enhancedCodexCommit"@)),
{
}

/// A fault is one that the lock file has: a field that is called empty is blank, a
/// revision that is called floating is that of its field and is not pinned, and a digest
/// that is called invalid is the artifact's and is none.
pub proof fn law_faults_are_those_of_the_file(lock: EnhancedRuntimeLockFileView)
    ensures
        lock.fault() matches Some(LockFileErrorView::EmptyField(field)) ==> {
            ||| field == "codexUpstreamCommit"@ && text::is_blank(lock.codex_upstream_commit)
            ||| field == "qwenCodeSourceCommit"@ && text::is_blank(lock.qwen_code_source_commit)
            ||| field == "deepseekHarnessSourceCommit"@ && text::is_blank(
                lock.deepseek_harness_source_commit,
            )
            ||| field == "appServerProtocolHash"@ && text::is_blank(lock.app_server_protocol_hash)
        },
        lock.fault() matches Some(LockFileErrorView::FloatingRevision { field, value }) ==> {
            ||| field == "codexUpstreamCommit"@ && value == lock.codex_upstream_commit
                && !digest::is_git_sha(value)
            ||| field == "qwenCodeSourceCommit"@ && value == lock.qwen_code_source_commit
                && !digest::is_git_sha(value)
            ||| field == "deepseekHarnessSourceCommit"@ && value
                == lock.deepseek_harness_source_commit && !digest::is_git_sha(value)
            ||| field == "enhancedCodexCommit"@ && Some(value) == lock.enhanced_codex_commit
                && !digest::is_git_sha(value)
            ||| field == "buildProfile"@ && value == lock.build_profile && (text::is_blank(value)
                || value == "main"@ || value == "master"@ || value == "latest"@)
        },
        lock.fault() matches Some(LockFileErrorView::InvalidDigest { field, value }) ==> field
            == "artifactSha256"@ && Some(value) == lock.artifact_sha256 && !digest::is_digest(
            value,
        ),
        lock.fault() matches Some(LockFileErrorView::UnsupportedSchema(version)) ==> version
            == lock.schema_version && version != 1,
        lock.fault() matches Some(fault) ==> !(fault is Json),
{
}

/// What is said of a fault tells the field, the value or the message it is about.
pub proof fn law_faults_are_told_in_words(
    message: Seq<char>,
    field: Seq<char>,
    value: Seq<char>,
    version: u32,
)
    ensures
        LockFileErrorView::Json(message).words() == "lock file JSON is invalid: "@ + message,
        LockFileErrorView::UnsupportedSchema(version).words()
            == "unsupported lock file schema version: "@ + text::decimal(version as nat),
        LockFileErrorView::EmptyField(field).words() == "lock file field "@ + field
            + " is empty"@,
        (LockFileErrorView::FloatingRevision { field, value }).words() == "lock file field "@
            + field + " must be a pinned git SHA, not "@ + value,
        (LockFileErrorView::InvalidDigest { field, value }).words() == "lock file field "@ + field
            + " must be a sha256 digest, not "@ + value,
{
}

} // verus!
