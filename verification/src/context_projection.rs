//! What pruned tool results were replaced by, so that later prompts show the
//! same text.

use crate::digest;
use crate::search;
use crate::text;
use vstd::prelude::*;

verus! {

/// One replacement: the result of a call, known by the digest of its text, and
/// the text that is shown in its place.
#[derive(Debug, PartialEq, Eq)]
pub struct ContextProjectionRecord {
    pub call_id: String,
    pub original_sha256: String,
    pub projected_text: String,
    pub generation: u64,
}

/// The model of [`ContextProjectionRecord`].
#[verifier::ext_equal]
pub struct ContextProjectionRecordView {
    pub call_id: Seq<char>,
    pub original_sha256: Seq<char>,
    pub projected_text: Seq<char>,
    pub generation: u64,
}

impl View for ContextProjectionRecord {
    type V = ContextProjectionRecordView;

    open spec fn view(&self) -> ContextProjectionRecordView {
        ContextProjectionRecordView {
            call_id: self.call_id@,
            original_sha256: self.original_sha256@,
            projected_text: self.projected_text@,
            generation: self.generation,
        }
    }
}

impl DeepView for ContextProjectionRecord {
    type V = ContextProjectionRecordView;

    open spec fn deep_view(&self) -> ContextProjectionRecordView {
        self@
    }
}

impl Clone for ContextProjectionRecord {
    fn clone(&self) -> (r: Self)
        ensures
            r@ == self@,
    {
        ContextProjectionRecord {
            call_id: self.call_id.clone(),
            original_sha256: self.original_sha256.clone(),
            projected_text: self.projected_text.clone(),
            generation: self.generation,
        }
    }
}

/// What applying the replacements to a prompt came to.
#[derive(Debug, Clone, Copy, PartialEq, Eq, Structural)]
pub struct ProjectionApplyStats {
    pub applied: u64,
    pub chars_removed: u64,
    /// Whether this was the first use of replacements that an earlier process
    /// had left.
    pub restored: bool,
}

/// The part of a store that outlives the process.
#[derive(Debug, PartialEq, Eq)]
pub struct DurableProjectionStore {
    pub schema_version: u32,
    pub generation: u64,
    pub records: Vec<ContextProjectionRecord>,
}

/// The model of [`DurableProjectionStore`].
#[verifier::ext_equal]
pub struct DurableProjectionStoreView {
    pub schema_version: u32,
    pub generation: u64,
    pub records: Seq<ContextProjectionRecordView>,
}

impl View for DurableProjectionStore {
    type V = DurableProjectionStoreView;

    open spec fn view(&self) -> DurableProjectionStoreView {
        DurableProjectionStoreView {
            schema_version: self.schema_version,
            generation: self.generation,
            records: self.records.deep_view(),
        }
    }
}

impl DeepView for DurableProjectionStore {
    type V = DurableProjectionStoreView;

    open spec fn deep_view(&self) -> DurableProjectionStoreView {
        self@
    }
}

impl Clone for DurableProjectionStore {
    fn clone(&self) -> (r: Self)
        ensures
            r@ == self@,
    {
        DurableProjectionStore {
            schema_version: self.schema_version,
            generation: self.generation,
            records: self.records.clone(),
        }
    }
}

/// The version of the durable form.
pub open spec fn current_schema() -> u32 {
    1
}

/// The version of the durable form.
pub fn schema_version() -> (r: u32)
    ensures
        r == current_schema(),
{
    1
}

/// The replacements of a thread. They belong to a generation, which ends when
/// the history is compacted.
#[derive(Debug)]
pub struct ContextProjectionStore {
    generation: u64,
    records: Vec<ContextProjectionRecord>,
    restored_from_disk: bool,
    restoration_reported: bool,
}

/// The model of [`ContextProjectionStore`].
#[verifier::ext_equal]
pub struct ContextProjectionStoreView {
    pub generation: u64,
    pub records: Seq<ContextProjectionRecordView>,
    pub restored_from_disk: bool,
    pub restoration_reported: bool,
}

impl View for ContextProjectionStore {
    type V = ContextProjectionStoreView;

    closed spec fn view(&self) -> ContextProjectionStoreView {
        ContextProjectionStoreView {
            generation: self.generation,
            records: self.records.deep_view(),
            restored_from_disk: self.restored_from_disk,
            restoration_reported: self.restoration_reported,
        }
    }
}

impl DeepView for ContextProjectionStore {
    type V = ContextProjectionStoreView;

    open spec fn deep_view(&self) -> ContextProjectionStoreView {
        self@
    }
}

impl ContextProjectionStoreView {
    /// A store that holds nothing.
    pub open spec fn empty() -> Self {
        ContextProjectionStoreView {
            generation: 0,
            records: seq![],
            restored_from_disk: false,
            restoration_reported: false,
        }
    }

    /// Whether a position holds the current replacement of an original.
    pub open spec fn direct(self, call_id: Seq<char>, sha: Seq<char>) -> spec_fn(int) -> bool {
        |i: int|
            self.records[i].call_id == call_id && self.records[i].original_sha256 == sha
                && self.records[i].generation == self.generation
    }

    /// Whether a position holds a current replacement of the call whose
    /// replacing text has the digest `sha`; `digests` are the digests of the
    /// replacing texts.
    pub open spec fn chained(
        self,
        call_id: Seq<char>,
        sha: Seq<char>,
        digests: Seq<Seq<char>>,
    ) -> spec_fn(int) -> bool {
        |i: int|
            self.records[i].call_id == call_id && digests[i] == sha && self.records[i].generation
                == self.generation
    }

    /// The digests of the replacing texts.
    pub open spec fn projected_digests(self) -> Seq<Seq<char>> {
        Seq::new(
            self.records.len(),
            |i: int| digest::text_digest(self.records[i].projected_text),
        )
    }

    /// The store with another replacing text at a position.
    pub open spec fn with_text(self, i: int, projected: Seq<char>) -> Self {
        ContextProjectionStoreView {
            records: self.records.update(
                i,
                ContextProjectionRecordView { projected_text: projected, ..self.records[i] },
            ),
            ..self
        }
    }

    /// The store once the original with digest `sha` is replaced by `projected`.
    /// A replacement of the same original is overwritten; failing that, so is
    /// one whose replacing text is the original at hand, so that a second
    /// pruning still leads from the first original to the final text; failing
    /// that, a new record is added.
    pub open spec fn placed(
        self,
        call_id: Seq<char>,
        sha: Seq<char>,
        digests: Seq<Seq<char>>,
        projected: Seq<char>,
    ) -> Self {
        let n = self.records.len();
        let direct = search::first_below(n, self.direct(call_id, sha));
        let chained = search::first_below(n, self.chained(call_id, sha, digests));
        if direct < n {
            self.with_text(direct, projected)
        } else if chained < n {
            self.with_text(chained, projected)
        } else {
            ContextProjectionStoreView {
                records: self.records.push(
                    ContextProjectionRecordView {
                        call_id,
                        original_sha256: sha,
                        projected_text: projected,
                        generation: self.generation,
                    },
                ),
                ..self
            }
        }
    }

    /// The store once `original` is replaced by `projected`; equal texts leave
    /// it as it is.
    pub open spec fn recorded(
        self,
        call_id: Seq<char>,
        original: Seq<char>,
        projected: Seq<char>,
    ) -> Self {
        if original == projected {
            self
        } else {
            self.placed(
                call_id,
                digest::text_digest(original),
                self.projected_digests(),
                projected,
            )
        }
    }

    /// The latest current replacement of the original with digest `sha`.
    pub open spec fn replaced_by(self, call_id: Seq<char>, sha: Seq<char>) -> Option<Seq<char>> {
        let last = search::last_below(self.records.len(), self.direct(call_id, sha));
        if last >= 0 {
            Some(self.records[last].projected_text)
        } else {
            None
        }
    }

    /// The latest current replacement of a text.
    pub open spec fn replacement_of(
        self,
        call_id: Seq<char>,
        current: Seq<char>,
    ) -> Option<Seq<char>> {
        self.replaced_by(call_id, digest::text_digest(current))
    }

    /// Whether a text is shown in place of at most one original of a call.
    pub open spec fn shown_for_one(self, call_id: Seq<char>, shown: Seq<char>) -> bool {
        let chained = self.chained(
            call_id,
            digest::text_digest(shown),
            self.projected_digests(),
        );
        forall|i: int, j: int|
            0 <= i < self.records.len() && 0 <= j < self.records.len() && #[trigger] chained(i)
                && #[trigger] chained(j) ==> i == j
    }

    /// The store once the history is compacted.
    pub open spec fn cleared(self) -> Self {
        ContextProjectionStoreView {
            generation: if self.generation < u64::MAX {
                (self.generation + 1) as u64
            } else {
                u64::MAX
            },
            records: seq![],
            restored_from_disk: false,
            restoration_reported: false,
        }
    }

    /// Whether no original has two replacements.
    pub open spec fn distinct(self) -> bool {
        forall|i: int, j: int|
            0 <= i < j < self.records.len() ==> !(#[trigger] self.records[i].call_id
                == #[trigger] self.records[j].call_id && self.records[i].original_sha256
                == self.records[j].original_sha256 && self.records[i].generation
                == self.records[j].generation)
    }

    /// The store that starts from what an earlier process left. A durable form
    /// of another version counts as none.
    pub open spec fn started(durable: Option<DurableProjectionStoreView>) -> Self {
        match durable {
            Some(d) if d.schema_version == current_schema() => ContextProjectionStoreView {
                generation: d.generation,
                records: d.records,
                restored_from_disk: d.records.len() > 0,
                restoration_reported: false,
            },
            _ => ContextProjectionStoreView::empty(),
        }
    }

    /// What outlives the process.
    pub open spec fn durable(self) -> DurableProjectionStoreView {
        DurableProjectionStoreView {
            schema_version: current_schema(),
            generation: self.generation,
            records: self.records,
        }
    }
}

impl ContextProjectionStore {
    /// The store that starts from what an earlier process left, if it left
    /// anything that could be read.
    pub fn load(durable: Option<DurableProjectionStore>) -> (r: Self)
        ensures
            r@ == ContextProjectionStoreView::started(durable.deep_view()),
    {
        match durable {
            Some(store) => {
                if store.schema_version == schema_version() {
                    let restored: bool = store.records.len() > 0;
                    let r = ContextProjectionStore {
                        generation: store.generation,
                        records: store.records,
                        restored_from_disk: restored,
                        restoration_reported: false,
                    };
                    r
                } else {
                    Self::in_memory()
                }
            },
            None => Self::in_memory(),
        }
    }

    /// A store that holds nothing.
    pub fn in_memory() -> (r: Self)
        ensures
            r@ == ContextProjectionStoreView::empty(),
    {
        let r = ContextProjectionStore {
            generation: 0,
            records: Vec::new(),
            restored_from_disk: false,
            restoration_reported: false,
        };
        assert(r@.records =~= seq![]);
        r
    }

    /// What has to be written down whenever the store has changed.
    pub fn durable(&self) -> (r: DurableProjectionStore)
        ensures
            r@ == self@.durable(),
    {
        DurableProjectionStore {
            schema_version: schema_version(),
            generation: self.generation,
            records: self.records.clone(),
        }
    }

    /// The current generation.
    pub fn generation(&self) -> (r: u64)
        ensures
            r == self@.generation,
    {
        self.generation
    }

    /// The digests of the replacing texts.
    fn hash_projections(&self) -> (r: Vec<String>)
        ensures
            r.deep_view() == self@.projected_digests(),
    {
        let mut out: Vec<String> = Vec::new();
        let mut i: usize = 0;
        while i < self.records.len()
            invariant
                i <= self.records.len(),
                out.deep_view() =~= self@.projected_digests().take(i as int),
            decreases self.records.len() - i,
        {
            let ghost before = out.deep_view();
            let sha = digest::text_sha256(self.records[i].projected_text.as_str());
            assert(self@.records[i as int] == self.records@[i as int]@);
            out.push(sha);
            assert(out.deep_view() =~= before.push(sha@));
            i = i + 1;
        }
        assert(out.deep_view() =~= self@.projected_digests());
        out
    }

    /// Notes that the original with digest `sha` is replaced by `projected`,
    /// given the digests of the replacing texts that the store holds.
    pub fn place(&mut self, call_id: &str, sha: &str, digests: &Vec<String>, projected: &str)
        requires
            digests.len() == old(self)@.records.len(),
        ensures
            final(self)@ == old(self)@.placed(call_id@, sha@, digests.deep_view(), projected@),
    {
        let ghost start = self@;
        let ghost n = start.records.len();
        let ghost is_direct = start.direct(call_id@, sha@);
        let ghost is_chained = start.chained(call_id@, sha@, digests.deep_view());
        let mut direct: usize = 0;
        while direct < self.records.len() && !(text::same_text(
            self.records[direct].call_id.as_str(),
            call_id,
        ) && text::same_text(self.records[direct].original_sha256.as_str(), sha)
            && self.records[direct].generation == self.generation)
            invariant
                direct <= self.records.len(),
                self@ == start,
                is_direct == start.direct(call_id@, sha@),
                forall|i: int| 0 <= i < direct ==> !#[trigger] is_direct(i),
            decreases self.records.len() - direct,
        {
            assert(self@.records[direct as int] == self.records@[direct as int]@);
            direct = direct + 1;
        }
        proof {
            if direct < n {
                assert(self@.records[direct as int] == self.records@[direct as int]@);
            }
            search::lemma_first_below_is(n, is_direct, direct as int);
        }
        if direct < self.records.len() {
            self.set_text(direct, projected);
            return;
        }
        let mut chained: usize = 0;
        while chained < self.records.len() && !(text::same_text(
            self.records[chained].call_id.as_str(),
            call_id,
        ) && text::same_text(digests[chained].as_str(), sha) && self.records[chained].generation
            == self.generation)
            invariant
                chained <= self.records.len(),
                self@ == start,
                digests.len() == self.records.len(),
                is_chained == start.chained(call_id@, sha@, digests.deep_view()),
                forall|i: int| 0 <= i < chained ==> !#[trigger] is_chained(i),
            decreases self.records.len() - chained,
        {
            assert(self@.records[chained as int] == self.records@[chained as int]@);
            assert(digests.deep_view()[chained as int] == digests@[chained as int]@);
            chained = chained + 1;
        }
        proof {
            if chained < n {
                assert(self@.records[chained as int] == self.records@[chained as int]@);
                assert(digests.deep_view()[chained as int] == digests@[chained as int]@);
            }
            search::lemma_first_below_is(n, is_chained, chained as int);
        }
        if chained < self.records.len() {
            self.set_text(chained, projected);
            return;
        }
        let record = ContextProjectionRecord {
            call_id: call_id.to_owned(),
            original_sha256: sha.to_owned(),
            projected_text: projected.to_owned(),
            generation: self.generation,
        };
        self.records.push(record);
        assert(self@.records =~= start.records.push(record@));
    }

    /// Puts another replacing text at a position.
    fn set_text(&mut self, i: usize, projected: &str)
        requires
            i < old(self)@.records.len(),
        ensures
            final(self)@ == old(self)@.with_text(i as int, projected@),
    {
        let ghost start = self@;
        let record = ContextProjectionRecord {
            call_id: self.records[i].call_id.clone(),
            original_sha256: self.records[i].original_sha256.clone(),
            projected_text: projected.to_owned(),
            generation: self.records[i].generation,
        };
        assert(start.records[i as int] == self.records@[i as int]@);
        self.records.set(i, record);
        assert(self@.records =~= start.records.update(i as int, record@));
    }

    /// Notes that a result of a call is replaced by another text. Returns
    /// whether there was anything to note, and so whether the durable form has
    /// to be written again.
    pub fn record(&mut self, call_id: &str, original_text: &str, projected_text: &str) -> (r: bool)
        ensures
            r == (original_text@ != projected_text@),
            final(self)@ == old(self)@.recorded(call_id@, original_text@, projected_text@),
    {
        if text::same_text(original_text, projected_text) {
            return false;
        }
        let sha = digest::text_sha256(original_text);
        let digests = self.hash_projections();
        assert(digests.deep_view().len() == digests.len());
        self.place(call_id, sha.as_str(), &digests, projected_text);
        true
    }

    /// The latest current replacement of the original with digest `sha`.
    pub fn replacement_for_digest(&self, call_id: &str, sha: &str) -> (r: Option<&str>)
        ensures
            r.deep_view() == self@.replaced_by(call_id@, sha@),
    {
        let ghost n = self@.records.len();
        let ghost is_direct = self@.direct(call_id@, sha@);
        let mut left: usize = self.records.len();
        while left > 0
            invariant
                left <= self.records.len(),
                n == self.records.len(),
                is_direct == self@.direct(call_id@, sha@),
                forall|i: int| left <= i < n ==> !#[trigger] is_direct(i),
            decreases left,
        {
            let i: usize = left - 1;
            let record = &self.records[i];
            assert(self@.records[i as int] == record@);
            if record.generation == self.generation && text::same_text(
                record.call_id.as_str(),
                call_id,
            ) && text::same_text(record.original_sha256.as_str(), sha) {
                proof {
                    assert(is_direct(i as int));
                    search::lemma_last_below_is(n, is_direct, i as int);
                }
                return Some(record.projected_text.as_str());
            }
            assert(!is_direct(i as int));
            left = i;
        }
        proof {
            search::lemma_last_below_is(n, is_direct, -1);
        }
        None
    }

    /// The text that is to be shown in place of a result, if there is one.
    pub fn replacement(&self, call_id: &str, current_text: &str) -> (r: Option<&str>)
        ensures
            r.deep_view() == self@.replacement_of(call_id@, current_text@),
    {
        let sha = digest::text_sha256(current_text);
        self.replacement_for_digest(call_id, sha.as_str())
    }

    /// Notes that replacements were applied. The first application of
    /// replacements that an earlier process left is reported as a restoration.
    pub fn note_application(&mut self, applied: u64, chars_removed: u64) -> (r:
        ProjectionApplyStats)
        ensures
            r.applied == applied,
            r.chars_removed == chars_removed,
            r.restored == (applied > 0 && old(self)@.restored_from_disk && !old(
                self,
            )@.restoration_reported),
            final(self)@ == (ContextProjectionStoreView {
                restoration_reported: old(self)@.restoration_reported || r.restored,
                ..old(self)@
            }),
    {
        let restored: bool = applied > 0 && self.restored_from_disk && !self.restoration_reported;
        if restored {
            self.restoration_reported = true;
        }
        ProjectionApplyStats { applied, chars_removed, restored }
    }

    /// Forgets all replacements, for the history that they belong to is gone.
    /// Returns whether there were any. The durable form has to be written again
    /// in either case.
    pub fn clear_after_compaction(&mut self) -> (r: bool)
        ensures
            r == (old(self)@.records.len() > 0),
            final(self)@ == old(self)@.cleared(),
    {
        let had_records: bool = self.records.len() > 0;
        self.records.clear();
        self.generation = self.generation.saturating_add(1);
        self.restored_from_disk = false;
        self.restoration_reported = false;
        assert(self@.records =~= seq![]);
        had_records
    }
}

/// Recording keeps the replacements distinct, and an empty store has none.
pub proof fn law_replacements_stay_distinct(
    store: ContextProjectionStoreView,
    call_id: Seq<char>,
    original: Seq<char>,
    projected: Seq<char>,
)
    requires
        store.distinct(),
    ensures
        store.recorded(call_id, original, projected).distinct(),
        store.cleared().distinct(),
        ContextProjectionStoreView::empty().distinct(),
{
    let sha = digest::text_digest(original);
    let n = store.records.len();
    let direct = store.direct(call_id, sha);
    let chained = store.chained(call_id, sha, store.projected_digests());
    search::lemma_first_below(n, direct);
    search::lemma_first_below(n, chained);
    let after = store.recorded(call_id, original, projected);
    assert forall|i: int, j: int| 0 <= i < j < after.records.len() implies !(
    #[trigger] after.records[i].call_id == #[trigger] after.records[j].call_id
        && after.records[i].original_sha256 == after.records[j].original_sha256
        && after.records[i].generation == after.records[j].generation) by {
        if j < n {
            assert(store.records[i].call_id == after.records[i].call_id);
            assert(store.records[j].call_id == after.records[j].call_id);
        } else {
            assert(!direct(i));
        }
    }
}

/// A recorded replacement is found again. Where the original was itself the
/// replacing text of an earlier original, it is the earlier original that now
/// leads to the new text.
pub proof fn law_recorded_replacement_is_found(
    store: ContextProjectionStoreView,
    call_id: Seq<char>,
    original: Seq<char>,
    projected: Seq<char>,
)
    requires
        store.distinct(),
        original != projected,
    ensures
        ({
            let sha = digest::text_digest(original);
            let n = store.records.len();
            let direct = search::first_below(n, store.direct(call_id, sha));
            let chained = search::first_below(
                n,
                store.chained(call_id, sha, store.projected_digests()),
            );
            let after = store.recorded(call_id, original, projected);
            if direct < n || chained == n {
                after.replacement_of(call_id, original) == Some(projected)
            } else {
                after.replaced_by(call_id, store.records[chained].original_sha256) == Some(
                    projected,
                )
            }
        }),
{
    let sha = digest::text_digest(original);
    let n = store.records.len();
    let direct = search::first_below(n, store.direct(call_id, sha));
    let digests = store.projected_digests();
    let chained = search::first_below(n, store.chained(call_id, sha, digests));
    search::lemma_first_below(n, store.direct(call_id, sha));
    search::lemma_first_below(n, store.chained(call_id, sha, digests));
    let after = store.recorded(call_id, original, projected);
    if direct < n {
        let found = after.direct(call_id, sha);
        assert(found(direct));
        assert forall|i: int| direct < i < n implies !#[trigger] found(i) by {
            assert(store.records[direct].call_id == call_id);
            assert(store.records[i].call_id == after.records[i].call_id);
        }
        search::lemma_last_below_is(n, found, direct);
    } else if chained == n {
        let found = after.direct(call_id, sha);
        assert(found(n as int));
        search::lemma_last_below_is(n + 1, found, n as int);
    } else {
        let first = store.records[chained].original_sha256;
        let found = after.direct(call_id, first);
        assert(found(chained));
        assert forall|i: int| chained < i < n implies !#[trigger] found(i) by {
            assert(store.records[chained].call_id == call_id);
            assert(store.records[i].call_id == after.records[i].call_id);
        }
        search::lemma_last_below_is(n, found, chained);
    }
}

/// A second cut reaches the first original. Where a text is shown cut, and what is
/// shown is cut again, the text leads to the second cut. The store must not
/// replace the first cut itself, and no other text of the call may be shown as the
/// first cut is.
pub proof fn law_second_cut_reaches_the_original(
    store: ContextProjectionStoreView,
    call_id: Seq<char>,
    original: Seq<char>,
    first: Seq<char>,
    second: Seq<char>,
)
    requires
        store.distinct(),
        first != second,
        store.replacement_of(call_id, original) == Some(first),
        store.replacement_of(call_id, first) is None,
        store.shown_for_one(call_id, first),
    ensures
        store.recorded(call_id, first, second).replacement_of(call_id, original) == Some(second),
{
    let n = store.records.len();
    let sha = digest::text_digest(first);
    let key = digest::text_digest(original);
    let direct = store.direct(call_id, sha);
    let chained = store.chained(call_id, sha, store.projected_digests());
    let held = store.direct(call_id, key);
    search::lemma_last_below(n, held);
    search::lemma_last_below(n, direct);
    search::lemma_first_below(n, direct);
    search::lemma_first_below(n, chained);
    let at = search::last_below(n, held);
    assert(held(at));
    assert(chained(at));
    let k = search::first_below(n, chained);
    assert(k <= at);
    assert(chained(k));
    assert(k == at);
    if search::first_below(n, direct) < n {
        assert(direct(search::first_below(n, direct)));
    }
    law_recorded_replacement_is_found(store, call_id, first, second);
}

/// Recording a replacement for one call changes nothing for any other.
pub proof fn law_recording_touches_one_call(
    store: ContextProjectionStoreView,
    call_id: Seq<char>,
    original: Seq<char>,
    projected: Seq<char>,
    other: Seq<char>,
    current: Seq<char>,
)
    requires
        other != call_id,
    ensures
        store.recorded(call_id, original, projected).replacement_of(other, current)
            == store.replacement_of(other, current),
{
    let sha = digest::text_digest(original);
    let n = store.records.len();
    search::lemma_first_below(n, store.direct(call_id, sha));
    search::lemma_first_below(n, store.chained(call_id, sha, store.projected_digests()));
    let after = store.recorded(call_id, original, projected);
    let key = digest::text_digest(current);
    let old_match = store.direct(other, key);
    let new_match = after.direct(other, key);
    let last = search::last_below(n, old_match);
    search::lemma_last_below(n, old_match);
    assert forall|i: int| 0 <= i < after.records.len() implies #[trigger] new_match(i) == (i < n
        && old_match(i)) by {
        if i < n {
            assert(after.records[i].call_id == store.records[i].call_id);
        }
    }
    assert forall|i: int| last < i < after.records.len() implies !#[trigger] new_match(i) by {
        if i < n {
            assert(!old_match(i));
        }
    }
    search::lemma_last_below_is(after.records.len(), new_match, last);
}

/// A replacement requires that the call, the digest of the original and the
/// generation all agree with a record.
pub proof fn law_replacement_requires_agreement(
    store: ContextProjectionStoreView,
    call_id: Seq<char>,
    current: Seq<char>,
)
    ensures
        store.replacement_of(call_id, current) matches Some(shown) ==> exists|i: int|
            0 <= i < store.records.len() && (#[trigger] store.records[i]).call_id == call_id
                && store.records[i].original_sha256 == digest::text_digest(current)
                && store.records[i].generation == store.generation
                && store.records[i].projected_text == shown,
        store.replacement_of(call_id, current) is None ==> forall|i: int|
            0 <= i < store.records.len() ==> !((#[trigger] store.records[i]).call_id == call_id
                && store.records[i].original_sha256 == digest::text_digest(current)
                && store.records[i].generation == store.generation),
{
    let found = store.direct(call_id, digest::text_digest(current));
    let n = store.records.len();
    search::lemma_last_below(n, found);
    let last = search::last_below(n, found);
    if last < 0 {
        assert forall|i: int| 0 <= i < n implies !((#[trigger] store.records[i]).call_id == call_id
            && store.records[i].original_sha256 == digest::text_digest(current)
            && store.records[i].generation == store.generation) by {
            assert(!found(i));
        }
    }
}

/// After a compaction nothing is replaced any more.
pub proof fn law_compaction_clears(
    store: ContextProjectionStoreView,
    call_id: Seq<char>,
    current: Seq<char>,
)
    ensures
        store.cleared().replacement_of(call_id, current) is None,
        store.cleared().generation >= store.generation,
{
}

/// What was written down is what is read back: a store that starts from the
/// durable form of another replaces the same texts, and it reports a restoration
/// if there is anything to restore.
pub proof fn law_durable_form_restores(
    store: ContextProjectionStoreView,
    call_id: Seq<char>,
    current: Seq<char>,
)
    ensures
        ({
            let restored = ContextProjectionStoreView::started(Some(store.durable()));
            &&& restored.generation == store.generation
            &&& restored.records == store.records
            &&& restored.restored_from_disk == (store.records.len() > 0)
            &&& !restored.restoration_reported
            &&& restored.replacement_of(call_id, current) == store.replacement_of(call_id, current)
        }),
{
    let restored = ContextProjectionStoreView::started(Some(store.durable()));
    let sha = digest::text_digest(current);
    let n = store.records.len();
    let p = store.direct(call_id, sha);
    let q = restored.direct(call_id, sha);
    search::lemma_last_below(n, p);
    let last = search::last_below(n, p);
    assert forall|i: int| last < i < n implies !#[trigger] q(i) by {
        assert(!p(i));
    }
    search::lemma_last_below_is(n, q, last);
}

/// A record of a replacement is put down in one place. Equal texts leave the store as
/// it is. An original that is replaced already gets the new text; one that the store
/// has nothing to do with gets a record of its own, with its digest and the current
/// generation. No record is lost, and none changes in anything but its text.
pub proof fn law_a_record_is_put_down_once(
    store: ContextProjectionStoreView,
    call_id: Seq<char>,
    original: Seq<char>,
    projected: Seq<char>,
)
    requires
        store.distinct(),
    ensures
        ({
            let after = store.recorded(call_id, original, projected);
            let n = store.records.len() as int;
            let shown_somewhere = exists|k: int|
                0 <= k < n && (#[trigger] store.records[k]).call_id == call_id
                    && store.records[k].generation == store.generation && digest::text_digest(
                    store.records[k].projected_text,
                ) == digest::text_digest(original);
            &&& original == projected ==> after == store
            &&& original != projected && store.replacement_of(call_id, original) is Some
                ==> after.records.len() == n && after.replacement_of(call_id, original) == Some(
                projected,
            )
            &&& original != projected && store.replacement_of(call_id, original) is None
                && !shown_somewhere ==> after.records.len() == n + 1 && after.records[n] == (
            ContextProjectionRecordView {
                call_id,
                original_sha256: digest::text_digest(original),
                projected_text: projected,
                generation: store.generation,
            }) && after.replacement_of(call_id, original) == Some(projected)
            &&& n <= after.records.len()
            &&& after.generation == store.generation
            &&& after.restored_from_disk == store.restored_from_disk
            &&& after.restoration_reported == store.restoration_reported
            &&& forall|k: int|
                0 <= k < n ==> (#[trigger] after.records[k]) == store.records[k]
                    || after.records[k] == (ContextProjectionRecordView {
                    projected_text: projected,
                    ..store.records[k]
                }) && store.records[k].call_id == call_id && store.records[k].generation
                    == store.generation
        }),
{
    let n = store.records.len();
    let sha = digest::text_digest(original);
    let direct = store.direct(call_id, sha);
    let chained = store.chained(call_id, sha, store.projected_digests());
    search::lemma_first_below(n, direct);
    search::lemma_first_below(n, chained);
    search::lemma_last_below(n, direct);
    let d = search::first_below(n, direct);
    let c = search::first_below(n, chained);
    if d < n {
        assert(direct(d));
    }
    if c < n {
        assert(chained(c));
        assert(store.records[c].call_id == call_id);
    }
    let last = search::last_below(n, direct);
    if last >= 0 {
        assert(direct(last));
    }
    if original != projected {
        law_recorded_replacement_is_found(store, call_id, original, projected);
    }
}

/// Compaction lets go of everything and counts the generation on; whatever was read
/// from disk no longer counts as restored.
pub proof fn law_compaction_starts_a_generation(store: ContextProjectionStoreView)
    ensures
        store.cleared().records.len() == 0,
        store.generation < u64::MAX ==> store.cleared().generation == store.generation + 1,
        !store.cleared().restored_from_disk,
        !store.cleared().restoration_reported,
        ContextProjectionStoreView::empty().records.len() == 0,
        ContextProjectionStoreView::empty().generation == 0,
        !ContextProjectionStoreView::empty().restored_from_disk,
        !ContextProjectionStoreView::empty().restoration_reported,
{
}

/// What an earlier process left is taken up where its form is known, and counts as
/// restored where it holds anything. Another form, or none, makes an empty store.
pub proof fn law_a_known_form_is_taken_up(durable: DurableProjectionStoreView)
    ensures
        ({
            let store = ContextProjectionStoreView::started(Some(durable));
            &&& durable.schema_version == 1 ==> store.records == durable.records
                && store.generation == durable.generation && store.restored_from_disk == (
            durable.records.len() > 0) && !store.restoration_reported
            &&& durable.schema_version != 1 ==> store.records.len() == 0 && store.generation == 0
                && !store.restored_from_disk
        }),
        ContextProjectionStoreView::started(None).records.len() == 0,
{
}

} // verus!
