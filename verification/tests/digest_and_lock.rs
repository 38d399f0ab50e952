use codex_enhanced::config::{AblationProfile, EnhancedRuntimeFeatures};
use codex_enhanced::digest::{
    compute_runtime_digest, digest_of_hash, is_pinned_git_sha, is_sha256_digest, text_sha256,
    DigestError,
};
use codex_enhanced::lockfile::{
    EnhancedRuntimeLockFile, LockFileError, APP_SERVER_PROTOCOL_HASH, CODEX_UPSTREAM_COMMIT,
};

const COMMIT: &str = "0123456789abcdef0123456789abcdef01234567";

fn released() -> EnhancedRuntimeLockFile {
    let mut lock = EnhancedRuntimeLockFile::mvp_pins();
    lock.enhanced_codex_commit = Some(COMMIT.into());
    lock.artifact_sha256 = Some(text_sha256("artifact"));
    lock.target_triple = Some("x86_64-pc-windows-msvc".into());
    lock
}

#[test]
fn rejects_floating_and_unreleased_revisions() {
    let mut lock = EnhancedRuntimeLockFile::mvp_pins();
    lock.codex_upstream_commit = "main".into();
    assert!(matches!(
        lock.validate(),
        Err(LockFileError::FloatingRevision { .. })
    ));
    let mut lock = EnhancedRuntimeLockFile::mvp_pins();
    lock.enhanced_codex_commit = Some("unreleased-vellum-enhanced-codex-mvp".into());
    assert!(matches!(
        lock.validate(),
        Err(LockFileError::FloatingRevision { .. })
    ));
}

#[test]
fn incomplete_identity_cannot_form_a_digest() {
    let lock = EnhancedRuntimeLockFile::mvp_pins();
    assert!(!lock.identity_complete());
    assert!(lock
        .runtime_digest(EnhancedRuntimeFeatures::all_on(), "x86_64-pc-windows-msvc")
        .is_err());
}

#[test]
fn digests_of_known_texts() {
    assert_eq!(
        text_sha256(""),
        "sha256:e3b0c44298fc1c149afbf4c8996fb92427ae41e4649b934ca495991b7852b855"
    );
    assert_eq!(
        text_sha256("abc"),
        "sha256:ba7816bf8f01cfea414140de5dae2223b00361a396177a9cb410ff61f20015ad"
    );
    assert_eq!(digest_of_hash(&vec![0x00, 0x7f, 0xff]), "sha256:007fff");
}

#[test]
fn digests_and_commits_are_recognized() {
    assert!(is_sha256_digest(APP_SERVER_PROTOCOL_HASH));
    assert!(!is_sha256_digest(&APP_SERVER_PROTOCOL_HASH[7..]));
    assert!(!is_sha256_digest(&APP_SERVER_PROTOCOL_HASH.replace('e', "g")));
    assert!(is_pinned_git_sha(CODEX_UPSTREAM_COMMIT));
    assert!(!is_pinned_git_sha(&CODEX_UPSTREAM_COMMIT[1..]));
    assert!(!is_pinned_git_sha("main"));
}

#[test]
fn pins_validate_as_they_stand() {
    assert_eq!(EnhancedRuntimeLockFile::mvp_pins().validate(), Ok(()));
    assert_eq!(EnhancedRuntimeLockFile::parse(Ok(released())), Ok(released()));
}

#[test]
fn every_fault_of_a_lock_file_is_named() {
    let mut lock = released();
    lock.schema_version = 7;
    assert_eq!(lock.validate(), Err(LockFileError::UnsupportedSchema(7)));
    let mut lock = released();
    lock.qwen_code_source_commit = " ".into();
    assert_eq!(
        lock.validate(),
        Err(LockFileError::EmptyField("qwenCodeSourceCommit"))
    );
    let mut lock = released();
    lock.deepseek_harness_source_commit = "latest".into();
    assert_eq!(
        lock.validate(),
        Err(LockFileError::FloatingRevision {
            field: "deepseekHarnessSourceCommit",
            value: "latest".into(),
        })
    );
    let mut lock = released();
    lock.app_server_protocol_hash = "\t".into();
    assert_eq!(
        lock.validate(),
        Err(LockFileError::EmptyField("appServerProtocolHash"))
    );
    let mut lock = released();
    lock.build_profile = "master".into();
    assert_eq!(
        lock.validate(),
        Err(LockFileError::FloatingRevision { field: "buildProfile", value: "master".into() })
    );
    let mut lock = released();
    lock.artifact_sha256 = Some("sha256:12".into());
    assert_eq!(
        lock.validate(),
        Err(LockFileError::InvalidDigest { field: "artifactSha256", value: "sha256:12".into() })
    );
    assert_eq!(
        EnhancedRuntimeLockFile::parse(Err("expected value".into())),
        Err(LockFileError::Json("expected value".into()))
    );
    let mut lock = released();
    lock.enhanced_codex_commit = Some("  ".into());
    lock.artifact_sha256 = Some("".into());
    assert_eq!(lock.validate(), Ok(()));
}

#[test]
fn faults_are_put_into_words() {
    let words = |error: LockFileError| error.message();
    assert_eq!(words(LockFileError::Json("x".into())), "lock file JSON is invalid: x");
    assert_eq!(
        words(LockFileError::UnsupportedSchema(12)),
        "unsupported lock file schema version: 12"
    );
    assert_eq!(
        words(LockFileError::EmptyField("buildProfile")),
        "lock file field buildProfile is empty"
    );
    assert_eq!(
        words(LockFileError::FloatingRevision { field: "f", value: "main".into() }),
        "lock file field f must be a pinned git SHA, not main"
    );
    assert_eq!(
        words(LockFileError::InvalidDigest { field: "f", value: "v".into() }),
        "lock file field f must be a sha256 digest, not v"
    );
}

#[test]
fn a_complete_lock_file_forms_a_digest_for_its_target() {
    let lock = released();
    assert!(lock.identity_complete());
    let triple = lock.target_triple.clone().unwrap();
    let off = lock
        .runtime_digest(EnhancedRuntimeFeatures::all_off(), &triple)
        .unwrap();
    assert!(is_sha256_digest(&off));
    let on = lock
        .runtime_digest(EnhancedRuntimeFeatures::all_on(), &triple)
        .unwrap();
    assert_ne!(off, on);
    let expected = text_sha256(&format!(
        "codexUpstreamCommit=633ab199cfd724aa78013c006b27a2b3d049fc3b\n\
         enhancedCodexCommit={COMMIT}\n\
         qwenSourceCommit=2b8f73c1e9cf8b355ec46c4623398c27b458b076\n\
         deepseekSourceCommit=dd6322d604e00eec1ba5e0c8541159906a21094a\n\
         qwenToolReliability=true\n\
         deepseekContextRecovery=true\n\
         qwenBoundedContinuation=true\n\
         repetitionNotice=true\n\
         intentContinuation=true\n\
         appServerProtocolHash={APP_SERVER_PROTOCOL_HASH}\n\
         buildProfile=enhanced-mvp-v1\n\
         targetTriple=x86_64-pc-windows-msvc\n\
         artifactSha256={}\n",
        text_sha256("artifact")
    ));
    assert_eq!(on, expected);
}

#[test]
fn every_fault_of_the_digest_inputs_is_named() {
    let fault = |lock: &EnhancedRuntimeLockFile, triple: &str| {
        lock.runtime_digest(EnhancedRuntimeFeatures::all_off(), triple)
    };
    let mut lock = released();
    lock.enhanced_codex_commit = None;
    assert_eq!(fault(&lock, "t"), Err(DigestError::Incomplete("enhancedCodexCommit")));
    let mut lock = released();
    lock.artifact_sha256 = Some("".into());
    assert_eq!(fault(&lock, "t"), Err(DigestError::Incomplete("artifactSha256")));
    let mut lock = released();
    lock.codex_upstream_commit = "main".into();
    assert_eq!(fault(&lock, "t"), Err(DigestError::NotPinned("codexUpstreamCommit")));
    let mut lock = released();
    lock.artifact_sha256 = Some("sha256:1".into());
    assert_eq!(fault(&lock, "t"), Err(DigestError::NotDigest("artifactSha256")));
    assert_eq!(fault(&released(), "  "), Err(DigestError::Incomplete("targetTriple")));
    let inputs = released()
        .digest_inputs(AblationProfile::E1.features(), "t")
        .unwrap();
    assert_eq!(
        compute_runtime_digest(&inputs).unwrap(),
        text_sha256(&inputs.canonical_text())
    );
}
