//! SHA-256 digests of texts, and the digest that identifies a built runtime.

use crate::config::EnhancedRuntimeFeatures;
use crate::text;
use sha2::{Digest, Sha256};
use vstd::prelude::*;

verus! {

/// What `sha2::Sha256::digest` returns for the bytes `data`.
pub uninterp spec fn sha256(data: Seq<u8>) -> Seq<u8>;

/// Calls `sha2::Sha256::digest`, the one-shot SHA-256 hash. The result depends on
/// the bytes alone, and it has 32 bytes.
#[verifier::external_body]
fn sha256_bytes(data: &[u8]) -> (r: Vec<u8>)
    ensures
        r@ == sha256(data@),
        r@.len() == 32,
{
    Sha256::digest(data).to_vec()
}

/// The lower-case hexadecimal digit of a number below sixteen.
pub open spec fn hex_char(n: u8) -> char {
    if n < 10 {
        (n + 48) as char
    } else {
        (n + 87) as char
    }
}

/// Bytes in lower-case hexadecimal notation, the high half of each byte first.
pub open spec fn lower_hex(data: Seq<u8>) -> Seq<char> {
    Seq::new(
        data.len() * 2,
        |i: int|
            if i % 2 == 0 {
                hex_char(data[i / 2] / 16)
            } else {
                hex_char(data[i / 2] % 16)
            },
    )
}

/// Calls `hex::encode`, which writes each byte as two lower-case hexadecimal
/// digits, the high half first.
#[verifier::external_body]
fn hex_text(data: &Vec<u8>) -> (r: String)
    ensures
        r@ == lower_hex(data@),
{
    hex::encode(data)
}

/// The digest of a text as it is written down: the algorithm's name, a colon,
/// and the SHA-256 hash of the text's UTF-8 bytes in hexadecimal.
pub open spec fn text_digest(value: Seq<char>) -> Seq<char> {
    "sha256:"@ + lower_hex(sha256(vstd::utf8::encode_utf8(value)))
}

/// Whether a text is a full git commit hash: forty hexadecimal digits.
pub open spec fn is_git_sha(value: Seq<char>) -> bool {
    &&& value.len() == 40
    &&& forall|i: int| 0 <= i < value.len() ==> text::is_hex_digit(#[trigger] value[i])
}

/// Whether a text is a SHA-256 digest: `sha256:` and 64 hexadecimal digits.
pub open spec fn is_digest(value: Seq<char>) -> bool {
    &&& value.len() == 71
    &&& text::begins_with(value, "sha256:"@)
    &&& forall|i: int| 7 <= i < value.len() ==> text::is_hex_digit(#[trigger] value[i])
}

/// Writes a hash down as a digest.
pub fn digest_of_hash(hash: &Vec<u8>) -> (r: String)
    ensures
        r@ == "sha256:"@ + lower_hex(hash@),
        is_digest(r@) <==> hash.len() == 32,
{
    let hex = hex_text(hash);
    let mut out = "sha256:".to_owned();
    out.append(hex.as_str());
    proof {
        reveal_strlit("sha256:");
        assert forall|i: int| 7 <= i < out@.len() implies text::is_hex_digit(
            #[trigger] out@[i],
        ) by {
            assert(out@[i] == hex@[i - 7]);
        }
        assert forall|k: int| 0 <= k < "sha256:"@.len() implies out@[0 + k]
            == #[trigger] "sha256:"@[k] by {}
    }
    out
}

/// Computes the digest of a text.
pub fn text_sha256(value: &str) -> (r: String)
    ensures
        r@ == text_digest(value@),
        is_digest(r@),
{
    digest_of_hash(&sha256_bytes(value.as_bytes()))
}

/// Tells whether all characters from position `from` on are hexadecimal digits.
fn all_hex_from(chars: &Vec<char>, from: usize) -> (r: bool)
    requires
        from <= chars.len(),
    ensures
        r == (forall|i: int| from <= i < chars.len() ==> text::is_hex_digit(#[trigger] chars@[i])),
{
    let mut i: usize = from;
    while i < chars.len()
        invariant
            from <= i <= chars.len(),
            forall|k: int| from <= k < i ==> text::is_hex_digit(#[trigger] chars@[k]),
        decreases chars.len() - i,
    {
        if !text::hex_digit(chars[i]) {
            return false;
        }
        i = i + 1;
    }
    true
}

/// Tells whether a text is a full git commit hash.
pub fn is_pinned_git_sha(value: &str) -> (r: bool)
    ensures
        r == is_git_sha(value@),
{
    let chars = text::characters(value);
    chars.len() == 40 && all_hex_from(&chars, 0)
}

/// Tells whether a text is a SHA-256 digest.
pub fn is_sha256_digest(value: &str) -> (r: bool)
    ensures
        r == is_digest(value@),
{
    let chars = text::characters(value);
    chars.len() == 71 && text::starts_with_text(value, "sha256:") && all_hex_from(&chars, 7)
}

/// Why a runtime digest cannot be formed.
#[derive(Debug, Clone, Copy, PartialEq, Eq)]
pub enum DigestError {
    /// The field is missing or blank.
    Incomplete(&'static str),
    /// The field must hold a full git commit hash.
    NotPinned(&'static str),
    /// The field must hold a SHA-256 digest.
    NotDigest(&'static str),
}

/// A digest error with the field's name as a sequence of characters.
pub enum DigestErrorView {
    Incomplete(Seq<char>),
    NotPinned(Seq<char>),
    NotDigest(Seq<char>),
}

impl View for DigestError {
    type V = DigestErrorView;

    open spec fn view(&self) -> DigestErrorView {
        match self {
            DigestError::Incomplete(field) => DigestErrorView::Incomplete(field@),
            DigestError::NotPinned(field) => DigestErrorView::NotPinned(field@),
            DigestError::NotDigest(field) => DigestErrorView::NotDigest(field@),
        }
    }
}

/// Everything that identifies a built runtime.
#[derive(Debug, PartialEq, Eq)]
pub struct DigestInputs {
    pub codex_upstream_commit: String,
    pub enhanced_codex_commit: String,
    pub qwen_source_commit: String,
    pub deepseek_source_commit: String,
    pub feature_defaults: EnhancedRuntimeFeatures,
    pub app_server_protocol_hash: String,
    pub build_profile: String,
    pub target_triple: String,
    pub artifact_sha256: String,
}

/// The digest inputs with their texts as sequences of characters.
pub struct DigestInputsView {
    pub codex_upstream_commit: Seq<char>,
    pub enhanced_codex_commit: Seq<char>,
    pub qwen_source_commit: Seq<char>,
    pub deepseek_source_commit: Seq<char>,
    pub feature_defaults: EnhancedRuntimeFeatures,
    pub app_server_protocol_hash: Seq<char>,
    pub build_profile: Seq<char>,
    pub target_triple: Seq<char>,
    pub artifact_sha256: Seq<char>,
}

impl View for DigestInputs {
    type V = DigestInputsView;

    open spec fn view(&self) -> DigestInputsView {
        DigestInputsView {
            codex_upstream_commit: self.codex_upstream_commit@,
            enhanced_codex_commit: self.enhanced_codex_commit@,
            qwen_source_commit: self.qwen_source_commit@,
            deepseek_source_commit: self.deepseek_source_commit@,
            feature_defaults: self.feature_defaults,
            app_server_protocol_hash: self.app_server_protocol_hash@,
            build_profile: self.build_profile@,
            target_triple: self.target_triple@,
            artifact_sha256: self.artifact_sha256@,
        }
    }
}

/// What is wrong with a commit field, if anything is.
pub open spec fn commit_fault(field: Seq<char>, value: Seq<char>) -> Option<DigestErrorView> {
    if text::is_blank(value) {
        Some(DigestErrorView::Incomplete(field))
    } else if !is_git_sha(value) {
        Some(DigestErrorView::NotPinned(field))
    } else {
        None
    }
}

/// What is wrong with a field that only has to be there, if anything is.
pub open spec fn blank_fault(field: Seq<char>, value: Seq<char>) -> Option<DigestErrorView> {
    if text::is_blank(value) {
        Some(DigestErrorView::Incomplete(field))
    } else {
        None
    }
}

/// What is wrong with the artifact's digest, if anything is.
pub open spec fn artifact_fault(value: Seq<char>) -> Option<DigestErrorView> {
    if text::is_blank(value) {
        Some(DigestErrorView::Incomplete("artifactSha256"@))
    } else if !is_digest(value) {
        Some(DigestErrorView::NotDigest("artifactSha256"@))
    } else {
        None
    }
}

impl DigestInputsView {
    /// The first fault of the inputs, in the order of the fields.
    pub open spec fn fault(self) -> Option<DigestErrorView> {
        let upstream = commit_fault("codexUpstreamCommit"@, self.codex_upstream_commit);
        let enhanced = commit_fault("enhancedCodexCommit"@, self.enhanced_codex_commit);
        let qwen = commit_fault("qwenSourceCommit"@, self.qwen_source_commit);
        let deepseek = commit_fault("deepseekSourceCommit"@, self.deepseek_source_commit);
        let protocol = blank_fault("appServerProtocolHash"@, self.app_server_protocol_hash);
        let profile = blank_fault("buildProfile"@, self.build_profile);
        let triple = blank_fault("targetTriple"@, self.target_triple);
        if upstream is Some {
            upstream
        } else if enhanced is Some {
            enhanced
        } else if qwen is Some {
            qwen
        } else if deepseek is Some {
            deepseek
        } else if protocol is Some {
            protocol
        } else if profile is Some {
            profile
        } else if triple is Some {
            triple
        } else {
            artifact_fault(self.artifact_sha256)
        }
    }

    /// The text that the digest is taken of: one line for each field, in the
    /// order of the fields.
    pub open spec fn canonical(self) -> Seq<char> {
        line("codexUpstreamCommit"@, self.codex_upstream_commit) + line(
            "enhancedCodexCommit"@,
            self.enhanced_codex_commit,
        ) + line("qwenSourceCommit"@, self.qwen_source_commit) + line(
            "deepseekSourceCommit"@,
            self.deepseek_source_commit,
        ) + line("qwenToolReliability"@, flag_text(self.feature_defaults.qwen_tool_reliability))
            + line(
            "deepseekContextRecovery"@,
            flag_text(self.feature_defaults.deepseek_context_recovery),
        ) + line(
            "qwenBoundedContinuation"@,
            flag_text(self.feature_defaults.qwen_bounded_continuation),
        ) + line("repetitionNotice"@, flag_text(self.feature_defaults.repetition_notice)) + line(
            "intentContinuation"@,
            flag_text(self.feature_defaults.intent_continuation),
        ) + line("appServerProtocolHash"@, self.app_server_protocol_hash) + line(
            "buildProfile"@,
            self.build_profile,
        ) + line("targetTriple"@, self.target_triple) + line(
            "artifactSha256"@,
            self.artifact_sha256,
        )
    }
}

/// One line of the canonical text.
pub open spec fn line(name: Seq<char>, value: Seq<char>) -> Seq<char> {
    name + "="@ + value + "\n"@
}

/// A switch in the canonical text.
pub open spec fn flag_text(on: bool) -> Seq<char> {
    if on {
        "true"@
    } else {
        "false"@
    }
}

fn check_commit(field: &'static str, value: &str) -> (r: Result<(), DigestError>)
    ensures
        r is Ok <==> commit_fault(field@, value@) is None,
        r matches Err(e) ==> commit_fault(field@, value@) == Some(e@),
{
    if text::blank(value) {
        Err(DigestError::Incomplete(field))
    } else if !is_pinned_git_sha(value) {
        Err(DigestError::NotPinned(field))
    } else {
        Ok(())
    }
}

fn check_present(field: &'static str, value: &str) -> (r: Result<(), DigestError>)
    ensures
        r is Ok <==> blank_fault(field@, value@) is None,
        r matches Err(e) ==> blank_fault(field@, value@) == Some(e@),
{
    if text::blank(value) {
        Err(DigestError::Incomplete(field))
    } else {
        Ok(())
    }
}

fn append_line(out: &mut String, name: &str, value: &str)
    ensures
        final(out)@ == old(out)@ + line(name@, value@),
{
    out.append(name);
    out.append("=");
    out.append(value);
    out.append("\n");
    assert(out@ =~= old(out)@ + line(name@, value@));
}

fn flag_word(on: bool) -> (r: &'static str)
    ensures
        r@ == flag_text(on),
{
    if on {
        "true"
    } else {
        "false"
    }
}

impl DigestInputs {
    /// Checks that the inputs identify a runtime: every commit is pinned, the
    /// artifact has its digest, and no field is blank.
    pub fn validate(&self) -> (r: Result<(), DigestError>)
        ensures
            r is Ok <==> self@.fault() is None,
            r matches Err(e) ==> self@.fault() == Some(e@),
    {
        check_commit("codexUpstreamCommit", self.codex_upstream_commit.as_str())?;
        check_commit("enhancedCodexCommit", self.enhanced_codex_commit.as_str())?;
        check_commit("qwenSourceCommit", self.qwen_source_commit.as_str())?;
        check_commit("deepseekSourceCommit", self.deepseek_source_commit.as_str())?;
        check_present("appServerProtocolHash", self.app_server_protocol_hash.as_str())?;
        check_present("buildProfile", self.build_profile.as_str())?;
        check_present("targetTriple", self.target_triple.as_str())?;
        if text::blank(self.artifact_sha256.as_str()) {
            Err(DigestError::Incomplete("artifactSha256"))
        } else if !is_sha256_digest(self.artifact_sha256.as_str()) {
            Err(DigestError::NotDigest("artifactSha256"))
        } else {
            Ok(())
        }
    }

    /// The text that the digest is taken of.
    pub fn canonical_text(&self) -> (r: String)
        ensures
            r@ == self@.canonical(),
    {
        let features = self.feature_defaults;
        let mut out = String::new();
        append_line(&mut out, "codexUpstreamCommit", self.codex_upstream_commit.as_str());
        append_line(&mut out, "enhancedCodexCommit", self.enhanced_codex_commit.as_str());
        append_line(&mut out, "qwenSourceCommit", self.qwen_source_commit.as_str());
        append_line(&mut out, "deepseekSourceCommit", self.deepseek_source_commit.as_str());
        append_line(&mut out, "qwenToolReliability", flag_word(features.qwen_tool_reliability));
        append_line(
            &mut out,
            "deepseekContextRecovery",
            flag_word(features.deepseek_context_recovery),
        );
        append_line(
            &mut out,
            "qwenBoundedContinuation",
            flag_word(features.qwen_bounded_continuation),
        );
        append_line(&mut out, "repetitionNotice", flag_word(features.repetition_notice));
        append_line(&mut out, "intentContinuation", flag_word(features.intent_continuation));
        append_line(&mut out, "appServerProtocolHash", self.app_server_protocol_hash.as_str());
        append_line(&mut out, "buildProfile", self.build_profile.as_str());
        append_line(&mut out, "targetTriple", self.target_triple.as_str());
        append_line(&mut out, "artifactSha256", self.artifact_sha256.as_str());
        assert(out@ =~= self@.canonical());
        out
    }
}

/// Computes the digest that identifies a runtime, from inputs that pass
/// [`DigestInputs::validate`].
pub fn compute_runtime_digest(inputs: &DigestInputs) -> (r: Result<String, DigestError>)
    ensures
        r is Ok <==> inputs@.fault() is None,
        r matches Ok(digest) ==> digest@ == text_digest(inputs@.canonical()),
        r matches Err(e) ==> inputs@.fault() == Some(e@),
{
    inputs.validate()?;
    Ok(text_sha256(inputs.canonical_text().as_str()))
}

/// Whether a character is a hexadecimal digit.
pub open spec fn writes_hex(c: char) -> bool {
    '0' <= c <= '9' || 'a' <= c <= 'f' || 'A' <= c <= 'F'
}

/// A pinned commit has forty hexadecimal digits and nothing else; a digest has its
/// prefix and sixty-four of them.
pub proof fn law_pins_are_hexadecimal(value: Seq<char>)
    ensures
        is_git_sha(value) <==> value.len() == 40 && forall|i: int|
            0 <= i < 40 ==> writes_hex(#[trigger] value[i]),
        is_digest(value) <==> value.len() == 71 && value.take(7) == "sha256:"@ && forall|i: int|
            7 <= i < 71 ==> writes_hex(#[trigger] value[i]),
{
    reveal_strlit("sha256:");
    assert("sha256:"@.len() == 7);
    text::law_held_text_stands_there(value, "sha256:"@);
    if value.len() == 71 && value.take(7) == "sha256:"@ {
        text::law_parts_are_held(value.take(7), seq![], value.skip(7));
        assert(value =~= value.take(7) + value.skip(7));
    }
    assert forall|i: int| 0 <= i < value.len() implies text::is_hex_digit(#[trigger] value[i])
        == writes_hex(value[i]) by {}
}

/// A digest is put together from inputs that are complete: every commit pinned, no other
/// entry blank, and the digest of the artifact a digest.
pub proof fn law_digests_need_complete_inputs(inputs: DigestInputsView)
    ensures
        inputs.fault() is None <==> {
            &&& !text::is_blank(inputs.codex_upstream_commit) && is_git_sha(
                inputs.codex_upstream_commit,
            )
            &&& !text::is_blank(inputs.enhanced_codex_commit) && is_git_sha(
                inputs.enhanced_codex_commit,
            )
            &&& !text::is_blank(inputs.qwen_source_commit) && is_git_sha(
                inputs.qwen_source_commit,
            )
            &&& !text::is_blank(inputs.deepseek_source_commit) && is_git_sha(
                inputs.deepseek_source_commit,
            )
            &&& !text::is_blank(inputs.app_server_protocol_hash)
            &&& !text::is_blank(inputs.build_profile)
            &&& !text::is_blank(inputs.target_triple)
            &&& !text::is_blank(inputs.artifact_sha256) && is_digest(inputs.artifact_sha256)
        },
{
}

/// Whether a text holds an entry: a name and its value on a line of their own.
pub open spec fn holds_entry(t: Seq<char>, name: Seq<char>, value: Seq<char>) -> bool {
    exists|a: Seq<char>, b: Seq<char>| t == #[trigger] (a + (name + "="@ + value + "\n"@) + b)
}

/// Every input goes into the digest: the text that is digested holds an entry for each,
/// and one for each switch.
pub proof fn law_every_input_is_digested(inputs: DigestInputsView)
    ensures
        ({
            let t = inputs.canonical();
            let on = inputs.feature_defaults;
            &&& holds_entry(t, "codexUpstreamCommit"@, inputs.codex_upstream_commit)
            &&& holds_entry(t, "enhancedCodexCommit"@, inputs.enhanced_codex_commit)
            &&& holds_entry(t, "qwenSourceCommit"@, inputs.qwen_source_commit)
            &&& holds_entry(t, "deepseekSourceCommit"@, inputs.deepseek_source_commit)
            &&& holds_entry(t, "appServerProtocolHash"@, inputs.app_server_protocol_hash)
            &&& holds_entry(t, "buildProfile"@, inputs.build_profile)
            &&& holds_entry(t, "targetTriple"@, inputs.target_triple)
            &&& holds_entry(t, "artifactSha256"@, inputs.artifact_sha256)
            &&& holds_entry(t, "qwenToolReliability"@, switch_word(on.qwen_tool_reliability))
            &&& holds_entry(
                t,
                "deepseekContextRecovery"@,
                switch_word(on.deepseek_context_recovery),
            )
            &&& holds_entry(
                t,
                "qwenBoundedContinuation"@,
                switch_word(on.qwen_bounded_continuation),
            )
            &&& holds_entry(t, "repetitionNotice"@, switch_word(on.repetition_notice))
            &&& holds_entry(t, "intentContinuation"@, switch_word(on.intent_continuation))
        }),
{
    let on = inputs.feature_defaults;
    let l1 = line("codexUpstreamCommit"@, inputs.codex_upstream_commit);
    let l2 = line("enhancedCodexCommit"@, inputs.enhanced_codex_commit);
    let l3 = line("qwenSourceCommit"@, inputs.qwen_source_commit);
    let l4 = line("deepseekSourceCommit"@, inputs.deepseek_source_commit);
    let l5 = line("qwenToolReliability"@, flag_text(on.qwen_tool_reliability));
    let l6 = line("deepseekContextRecovery"@, flag_text(on.deepseek_context_recovery));
    let l7 = line("qwenBoundedContinuation"@, flag_text(on.qwen_bounded_continuation));
    let l8 = line("repetitionNotice"@, flag_text(on.repetition_notice));
    let l9 = line("intentContinuation"@, flag_text(on.intent_continuation));
    let l10 = line("appServerProtocolHash"@, inputs.app_server_protocol_hash);
    let l11 = line("buildProfile"@, inputs.build_profile);
    let l12 = line("targetTriple"@, inputs.target_triple);
    let l13 = line("artifactSha256"@, inputs.artifact_sha256);
    let parts = seq![l1, l2, l3, l4, l5, l6, l7, l8, l9, l10, l11, l12, l13];
    let t = inputs.canonical();
    lemma_split(parts, t, 0);
    lemma_split(parts, t, 1);
    lemma_split(parts, t, 2);
    lemma_split(parts, t, 3);
    lemma_split(parts, t, 4);
    lemma_split(parts, t, 5);
    lemma_split(parts, t, 6);
    lemma_split(parts, t, 7);
    lemma_split(parts, t, 8);
    lemma_split(parts, t, 9);
    lemma_split(parts, t, 10);
    lemma_split(parts, t, 11);
    lemma_split(parts, t, 12);
}

/// The word that a switch is digested as.
pub open spec fn switch_word(on: bool) -> Seq<char> {
    if on {
        "true"@
    } else {
        "false"@
    }
}

spec fn behind_one_another(parts: Seq<Seq<char>>) -> Seq<char>
    decreases parts.len(),
{
    if parts.len() == 0 {
        seq![]
    } else {
        behind_one_another(parts.drop_last()) + parts.last()
    }
}

proof fn lemma_split(parts: Seq<Seq<char>>, t: Seq<char>, i: int)
    requires
        parts.len() == 13,
        t == parts[0] + parts[1] + parts[2] + parts[3] + parts[4] + parts[5] + parts[6] + parts[7]
            + parts[8] + parts[9] + parts[10] + parts[11] + parts[12],
        0 <= i < 13,
    ensures
        exists|a: Seq<char>, b: Seq<char>| t == #[trigger] (a + parts[i] + b),
{
    lemma_drop(parts);
    lemma_split_any(parts, i);
}

proof fn lemma_drop(parts: Seq<Seq<char>>)
    requires
        parts.len() == 13,
    ensures
        behind_one_another(parts) == parts[0] + parts[1] + parts[2] + parts[3] + parts[4]
            + parts[5] + parts[6] + parts[7] + parts[8] + parts[9] + parts[10] + parts[11]
            + parts[12],
{
    assert(parts.take(0) =~= seq![]);
    lemma_one_more(parts, 0);
    lemma_one_more(parts, 1);
    lemma_one_more(parts, 2);
    lemma_one_more(parts, 3);
    lemma_one_more(parts, 4);
    lemma_one_more(parts, 5);
    lemma_one_more(parts, 6);
    lemma_one_more(parts, 7);
    lemma_one_more(parts, 8);
    lemma_one_more(parts, 9);
    lemma_one_more(parts, 10);
    lemma_one_more(parts, 11);
    lemma_one_more(parts, 12);
    assert(parts.take(13) =~= parts);
    assert(behind_one_another(parts.take(1)) =~= parts[0]);
}

proof fn lemma_one_more(parts: Seq<Seq<char>>, k: int)
    requires
        0 <= k < parts.len(),
    ensures
        behind_one_another(parts.take(k + 1)) == behind_one_another(parts.take(k)) + parts[k],
{
    assert(parts.take(k + 1).drop_last() =~= parts.take(k));
}

proof fn lemma_split_any(parts: Seq<Seq<char>>, i: int)
    requires
        0 <= i < parts.len(),
    ensures
        exists|a: Seq<char>, b: Seq<char>|
            behind_one_another(parts) == #[trigger] (a + parts[i] + b),
    decreases parts.len(),
{
    if i == parts.len() - 1 {
        let a = behind_one_another(parts.drop_last());
        assert(behind_one_another(parts) =~= a + parts[i] + Seq::<char>::empty());
    } else {
        lemma_split_any(parts.drop_last(), i);
        let (a, b) = choose|a: Seq<char>, b: Seq<char>|
            behind_one_another(parts.drop_last()) == #[trigger] (a + parts.drop_last()[i] + b);
        assert(parts.drop_last()[i] == parts[i]);
        assert(behind_one_another(parts) =~= a + parts[i] + (b + parts.last()));
    }
}

/// The value of a hexadecimal digit in small letters.
pub open spec fn hex_value(c: char) -> int {
    if '0' <= c <= '9' {
        c as int - '0' as int
    } else {
        c as int - 'a' as int + 10
    }
}

/// Bytes are written in hexadecimal, two small digits each, the higher first, so that
/// each can be read off again.
pub proof fn law_bytes_are_written_in_hexadecimal(data: Seq<u8>, i: int)
    requires
        0 <= i < data.len(),
    ensures
        lower_hex(data).len() == 2 * data.len(),
        16 * hex_value(lower_hex(data)[2 * i]) + hex_value(lower_hex(data)[2 * i + 1]) == data[i],
        writes_hex(lower_hex(data)[2 * i]),
        writes_hex(lower_hex(data)[2 * i + 1]),
{
    let b = data[i];
    assert((2 * i) / 2 == i && (2 * i) % 2 == 0);
    assert((2 * i + 1) / 2 == i && (2 * i + 1) % 2 == 1);
    assert(b / 16 < 16 && b % 16 < 16 && 16 * (b / 16) + b % 16 == b);
}

/// The digest of a text is that of its bytes, behind the name of the algorithm.
pub proof fn law_texts_are_digested_by_their_bytes(value: Seq<char>)
    ensures
        text_digest(value).take(7) == "sha256:"@,
        text_digest(value).skip(7) == lower_hex(sha256(vstd::utf8::encode_utf8(value))),
{
    reveal_strlit("sha256:");
    assert("sha256:"@.len() == 7);
    assert(text_digest(value).take(7) =~= "sha256:"@);
    assert(text_digest(value).skip(7) =~= lower_hex(sha256(vstd::utf8::encode_utf8(value))));
}

/// What is said to be missing is missing: an input that is called incomplete is blank,
/// one that is called not pinned is a commit that is not pinned, and only the artifact is
/// called no digest.
pub proof fn law_faults_are_those_of_the_inputs(inputs: DigestInputsView)
    ensures
        inputs.fault() matches Some(DigestErrorView::Incomplete(field)) ==> {
            ||| field == "codexUpstreamCommit"@ && text::is_blank(inputs.codex_upstream_commit)
            ||| field == "enhancedCodexCommit"@ && text::is_blank(inputs.enhanced_codex_commit)
            ||| field == "qwenSourceCommit"@ && text::is_blank(inputs.qwen_source_commit)
            ||| field == "deepseekSourceCommit"@ && text::is_blank(inputs.deepseek_source_commit)
            ||| field == "appServerProtocolHash"@ && text::is_blank(
                inputs.app_server_protocol_hash,
            )
            ||| field == "buildProfile"@ && text::is_blank(inputs.build_profile)
            ||| field == "targetTriple"@ && text::is_blank(inputs.target_triple)
            ||| field == "artifactSha256"@ && text::is_blank(inputs.artifact_sha256)
        },
        inputs.fault() matches Some(DigestErrorView::NotPinned(field)) ==> {
            ||| field == "codexUpstreamCommit"@ && !is_git_sha(inputs.codex_upstream_commit)
            ||| field == "enhancedCodexCommit"@ && !is_git_sha(inputs.enhanced_codex_commit)
            ||| field == "qwenSourceCommit"@ && !is_git_sha(inputs.qwen_source_commit)
            ||| field == "deepseekSourceCommit"@ && !is_git_sha(inputs.deepseek_source_commit)
        },
        inputs.fault() matches Some(DigestErrorView::NotDigest(field)) ==> field
            == "artifactSha256"@ && !is_digest(inputs.artifact_sha256),
{
}

} // verus!
